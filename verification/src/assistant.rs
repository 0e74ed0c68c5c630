//! The assistant: the command-line tool that writes the replies, as the user
//! describes it.
use crate::json::{parse_text, text_json, Json, JsonView};
use vstd::prelude::*;

verus! {

/// The command-line tool that writes the replies.
#[derive(Debug, PartialEq)]
pub struct Assistant {
    /// The command that starts it.
    pub command: String,
    /// The name under which it is installed.
    pub product: String,
}

/// The model of an [`Assistant`].
pub struct AssistantView {
    pub command: Seq<char>,
    pub product: Seq<char>,
}

impl View for Assistant {
    type V = AssistantView;

    open spec fn view(&self) -> AssistantView {
        AssistantView { command: self.command@, product: self.product@ }
    }
}

impl Clone for Assistant {
    fn clone(&self) -> (r: Assistant)
        ensures
            r@ == self@,
    {
        Assistant { command: self.command.clone(), product: self.product.clone() }
    }
}

/// The assistant that an object describes: `command` and `product`.
pub open spec fn described(v: JsonView) -> Option<AssistantView> {
    match (v.at("command"@).text(), v.at("product"@).text()) {
        (Some(command), Some(product)) => Some(AssistantView { command, product }),
        _ => None,
    }
}

/// The assistant that an object describes.
pub fn assistant_in(v: &Json) -> (r: Option<Assistant>)
    ensures
        r is Some == described(v@) is Some,
        r matches Some(a) ==> described(v@) == Some(a@),
{
    match (v.text_at("command"), v.text_at("product")) {
        (Some(command), Some(product)) => Some(
            Assistant { command: command.to_owned(), product: product.to_owned() },
        ),
        _ => None,
    }
}

/// The assistant that a text describes.
pub open spec fn described_in(text: Seq<char>) -> Option<AssistantView> {
    match text_json(text) {
        Some(v) => described(v),
        None => None,
    }
}

/// The assistant that a text describes.
pub fn read_assistant(text: &str) -> (r: Option<Assistant>)
    ensures
        r is Some == described_in(text@) is Some,
        r matches Some(a) ==> described_in(text@) == Some(a@),
        r is Some == (text_json(text@) matches Some(v) && described(v) is Some),
        r matches Some(a) ==> described(text_json(text@)->0) == Some(a@),
{
    match parse_text(text) {
        Some(v) => assistant_in(&v),
        None => None,
    }
}

/// An assistant is described if and only if both texts are there, and it is described
/// by these very texts.
pub proof fn law_assistant_is_as_described(v: JsonView, command: Seq<char>, product: Seq<char>)
    ensures
        described(v) == Some(AssistantView { command, product }) <==> v.at("command"@)
            == JsonView::Text(command) && v.at("product"@) == JsonView::Text(product),
        described(v) is None <==> !(v.at("command"@) is Text && v.at("product"@) is Text),
        forall|text: Seq<char>|
            text_json(text) == Some(v) ==> #[trigger] described_in(text) == described(v),
        forall|text: Seq<char>|
            text_json(text) is None ==> #[trigger] described_in(text) is None,
{
}

/// An assistant is seen as it is.
pub proof fn law_assistant_is_seen_as_it_is(a: Assistant)
    ensures
        a@.command == a.command@,
        a@.product == a.product@,
{
}

} // verus!
