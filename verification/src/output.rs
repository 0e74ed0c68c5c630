//! The assistant's output: one JSON record a line, some of which carry the next
//! piece of the reply.
use crate::json::{parse_text, text_json, Json, JsonView};
use crate::text::{trim, trimmed};
use vstd::prelude::*;

verus! {

/// What a line of the assistant's output says.
#[derive(Debug, PartialEq)]
pub enum Signal {
    /// This is the next piece of the reply.
    Text(String),
    /// The reply is complete.
    End,
    /// Nothing that matters here.
    Nothing,
}

/// The model of a [`Signal`].
pub enum SignalView {
    Text(Seq<char>),
    End,
    Nothing,
}

impl View for Signal {
    type V = SignalView;

    open spec fn view(&self) -> SignalView {
        match self {
            Signal::Text(t) => SignalView::Text(t@),
            Signal::End => SignalView::End,
            Signal::Nothing => SignalView::Nothing,
        }
    }
}

/// Whether a record carries a piece of the reply.
pub open spec fn is_text_delta(v: JsonView) -> bool {
    &&& v.at("type"@) == JsonView::Text("stream_event"@)
    &&& v.at("event"@).at("type"@) == JsonView::Text("content_block_delta"@)
    &&& v.at("event"@).at("delta"@).at("type"@) == JsonView::Text("text_delta"@)
}

/// What a record of the assistant's output says.
pub open spec fn record_signal(v: JsonView) -> SignalView {
    if is_text_delta(v) {
        match v.at("event"@).at("delta"@).at("text"@) {
            JsonView::Text(t) => SignalView::Text(t),
            _ => SignalView::Nothing,
        }
    } else if v.at("type"@) == JsonView::Text("result"@) {
        SignalView::End
    } else {
        SignalView::Nothing
    }
}

/// What a line of the assistant's output says; nothing if it is blank or no JSON.
pub open spec fn line_signal(line: Seq<char>) -> SignalView {
    let s = trimmed(line);
    if s.len() == 0 {
        SignalView::Nothing
    } else {
        match text_json(s) {
            Some(v) => record_signal(v),
            None => SignalView::Nothing,
        }
    }
}

/// What a record of the assistant's output says.
pub fn read_record(v: &Json) -> (r: Signal)
    ensures
        r@ == record_signal(v@),
        r is End <==> v@.at("type"@) == JsonView::Text("result"@),
{
    proof {
        reveal_strlit("stream_event");
        reveal_strlit("result");
        assert("stream_event"@.len() != "result"@.len());
    }
    if v.says("type", "stream_event") {
        match v.get("event") {
            Some(event) => if event.says("type", "content_block_delta") {
                match event.get("delta") {
                    Some(delta) => if delta.says("type", "text_delta") {
                        match delta.text_at("text") {
                            Some(t) => return Signal::Text(t.to_owned()),
                            None => {},
                        }
                    },
                    None => {},
                }
            },
            None => {},
        }
        Signal::Nothing
    } else if v.says("type", "result") {
        Signal::End
    } else {
        Signal::Nothing
    }
}

/// What a line of the assistant's output says.
pub fn read_line(line: &str) -> (r: Signal)
    ensures
        r@ == line_signal(line@),
{
    let s = trim(line);
    if s.is_empty() {
        return Signal::Nothing;
    }
    match parse_text(s) {
        Some(v) => read_record(&v),
        None => Signal::Nothing,
    }
}

/// Whether a record carries this piece of the reply.
pub open spec fn carries(v: JsonView, piece: Seq<char>) -> bool {
    &&& v.at("type"@) == JsonView::Text("stream_event"@)
    &&& v.at("event"@).at("type"@) == JsonView::Text("content_block_delta"@)
    &&& v.at("event"@).at("delta"@).at("type"@) == JsonView::Text("text_delta"@)
    &&& v.at("event"@).at("delta"@).at("text"@) == JsonView::Text(piece)
}

/// A record ends the reply if and only if its type is `result`.
pub proof fn law_only_the_result_record_ends_the_reply(v: JsonView)
    ensures
        record_signal(v) is End <==> v.at("type"@) == JsonView::Text("result"@),
{
    reveal_strlit("stream_event");
    reveal_strlit("result");
    assert("stream_event"@.len() != "result"@.len());
}

/// A record says a piece of the reply if and only if it is the text delta of that
/// very piece.
pub proof fn law_only_text_deltas_are_said(v: JsonView, piece: Seq<char>)
    ensures
        record_signal(v) == SignalView::Text(piece) <==> carries(v, piece),
{
}

/// A line says what the record in it says, white space around it aside; a line that
/// is blank or no JSON says nothing.
pub proof fn law_lines_say_what_their_records_say(line: Seq<char>, v: JsonView, piece: Seq<char>)
    ensures
        trimmed(line).len() > 0 && text_json(trimmed(line)) == Some(v) ==> {
            &&& line_signal(line) is End <==> v.at("type"@) == JsonView::Text("result"@)
            &&& line_signal(line) == SignalView::Text(piece) <==> carries(v, piece)
        },
        trimmed(line).len() == 0 || text_json(trimmed(line)) is None ==> line_signal(line)
            == SignalView::Nothing,
{
    law_only_the_result_record_ends_the_reply(v);
}

/// What a line says is seen as it is.
pub proof fn law_signals_are_seen_as_they_are(s: Signal)
    ensures
        s matches Signal::Text(t) ==> s@ == SignalView::Text(t@),
        s is End ==> s@ == SignalView::End,
        s is Nothing ==> s@ == SignalView::Nothing,
{
}

} // verus!
