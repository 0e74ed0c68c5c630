//! JSON values: their model, how they are read from text, and how their parts
//! are reached.
//!
//! The reading itself is `serde_json`'s. Its result is unfolded, layer by layer,
//! into [`Json`], whose model [`JsonView`] is what every contract of this crate
//! speaks of.
use crate::text::same;
use vstd::prelude::*;

verus! {

/// A JSON value as mathematics: texts are sequences of characters, an object is
/// the sequence of its entries.
#[verifier::ext_equal]
pub enum JsonView {
    Null,
    Bool(bool),
    /// A number, written as JSON writes it.
    Number(Seq<char>),
    Text(Seq<char>),
    Array(Seq<JsonView>),
    Object(Seq<(Seq<char>, JsonView)>),
}

/// The value of the first entry under `key`.
pub open spec fn lookup(entries: Seq<(Seq<char>, JsonView)>, key: Seq<char>) -> Option<JsonView>
    decreases entries.len(),
{
    if entries.len() == 0 {
        None
    } else if entries[0].0 == key {
        Some(entries[0].1)
    } else {
        lookup(entries.drop_first(), key)
    }
}

impl JsonView {
    /// The value under `key`, if this is an object that has one.
    pub open spec fn get(self, key: Seq<char>) -> Option<JsonView> {
        match self {
            JsonView::Object(entries) => lookup(entries, key),
            _ => None,
        }
    }

    /// The value under `key`, `Null` where there is none.
    pub open spec fn at(self, key: Seq<char>) -> JsonView {
        match self.get(key) {
            Some(v) => v,
            None => JsonView::Null,
        }
    }

    /// The text, if this is one.
    pub open spec fn text(self) -> Option<Seq<char>> {
        match self {
            JsonView::Text(t) => Some(t),
            _ => None,
        }
    }
}

/// A JSON value.
#[derive(Debug, PartialEq)]
pub enum Json {
    Null,
    Bool(bool),
    /// A number, written as JSON writes it.
    Number(String),
    Text(String),
    Array(Vec<Json>),
    Object(Vec<(String, Json)>),
}

impl Json {
    /// The value that this one stands for.
    pub open spec fn model(self) -> JsonView
        decreases self,
    {
        match self {
            Json::Null => JsonView::Null,
            Json::Bool(b) => JsonView::Bool(b),
            Json::Number(n) => JsonView::Number(n@),
            Json::Text(t) => JsonView::Text(t@),
            Json::Array(items) => JsonView::Array(
                Seq::new(
                    items@.len(),
                    |i: int| if 0 <= i < items@.len() { items@[i].model() } else { JsonView::Null },
                ),
            ),
            Json::Object(entries) => JsonView::Object(
                Seq::new(
                    entries@.len(),
                    |i: int|
                        if 0 <= i < entries@.len() {
                            (entries@[i].0@, entries@[i].1.model())
                        } else {
                            (Seq::<char>::empty(), JsonView::Null)
                        },
                ),
            ),
        }
    }
}

impl View for Json {
    type V = JsonView;

    open spec fn view(&self) -> JsonView {
        self.model()
    }
}

impl Json {
    /// A text value.
    pub fn from_text(text: &str) -> (j: Json)
        ensures
            j@ == JsonView::Text(text@),
    {
        Json::Text(text.to_owned())
    }

    /// The value under `key`, if this is an object that has one.
    pub fn get(&self, key: &str) -> (r: Option<&Json>)
        ensures
            r is Some == self@.get(key@) is Some,
            r matches Some(j) ==> j@ == self@.get(key@)->0,
    {
        match self {
            Json::Object(entries) => {
                let ghost all = self@->Object_0;
                let mut i: usize = 0;
                assert(all.skip(0) == all);
                while i < entries.len()
                    invariant
                        *self == Json::Object(*entries),
                        all == self@->Object_0,
                        i <= entries@.len(),
                        lookup(all, key@) == lookup(all.skip(i as int), key@),
                    decreases entries@.len() - i,
                {
                    let ghost rest = all.skip(i as int);
                    assert(rest[0] == (entries@[i as int].0@, entries@[i as int].1@));
                    assert(rest.drop_first() == all.skip(i + 1));
                    if same(entries[i].0.as_str(), key) {
                        return Some(&entries[i].1);
                    }
                    i += 1;
                }
                None
            },
            _ => None,
        }
    }

    /// The text, if this is one.
    pub fn text(&self) -> (r: Option<&str>)
        ensures
            r is Some == self@.text() is Some,
            r matches Some(t) ==> t@ == self@.text()->0,
    {
        match self {
            Json::Text(t) => Some(t.as_str()),
            _ => None,
        }
    }

    /// The text under `key`, if this is an object that has one there.
    pub fn text_at(&self, key: &str) -> (r: Option<&str>)
        ensures
            r is Some == self@.at(key@).text() is Some,
            r matches Some(t) ==> t@ == self@.at(key@).text()->0,
    {
        match self.get(key) {
            Some(j) => j.text(),
            None => None,
        }
    }

    /// Whether the text `expected` stands under `key`.
    pub fn says(&self, key: &str, expected: &str) -> (r: bool)
        ensures
            r == (self@.at(key@) == JsonView::Text(expected@)),
    {
        match self.text_at(key) {
            Some(t) => same(t, expected),
            None => false,
        }
    }
}

impl Clone for Json {
    fn clone(&self) -> (r: Json)
        ensures
            r@ == self@,
        decreases self,
    {
        match self {
            Json::Null => Json::Null,
            Json::Bool(b) => Json::Bool(*b),
            Json::Number(n) => Json::Number(n.clone()),
            Json::Text(t) => Json::Text(t.clone()),
            Json::Array(items) => {
                let mut out: Vec<Json> = Vec::new();
                let mut i: usize = 0;
                while i < items.len()
                    invariant
                        *self == Json::Array(*items),
                        i <= items@.len(),
                        out@.len() == i,
                        forall|k: int| 0 <= k < i ==> (#[trigger] out@[k])@ == items@[k]@,
                    decreases items@.len() - i,
                {
                    assert(decreases_to!(*self => self->Array_0));
                    assert(decreases_to!(*items => items@));
                    assert(decreases_to!(items@ => items@[i as int]));
                    out.push(items[i].clone());
                    i += 1;
                }
                let r = Json::Array(out);
                assert(r@->Array_0 =~= self@->Array_0);
                r
            },
            Json::Object(entries) => {
                let mut out: Vec<(String, Json)> = Vec::new();
                let mut i: usize = 0;
                while i < entries.len()
                    invariant
                        *self == Json::Object(*entries),
                        i <= entries@.len(),
                        out@.len() == i,
                        forall|k: int| #![trigger out@[k]]
                            0 <= k < i ==> out@[k].0@ == entries@[k].0@ && out@[k].1@
                                == entries@[k].1@,
                    decreases entries@.len() - i,
                {
                    assert(decreases_to!(*self => self->Object_0));
                    assert(decreases_to!(*entries => entries@));
                    assert(decreases_to!(entries@ => entries@[i as int]));
                    assert(decreases_to!(entries@[i as int] => entries@[i as int].1));
                    out.push((entries[i].0.clone(), entries[i].1.clone()));
                    i += 1;
                }
                let r = Json::Object(out);
                assert(r@->Object_0 =~= self@->Object_0);
                r
            },
        }
    }
}

/// `serde_json`'s own value type, which its parsers return.
#[verifier::external_type_specification]
#[verifier::external_body]
pub struct ExValue(serde_json::Value);

/// What a `serde_json::Value` holds: its variant with its contents, the entries
/// of an object in the order in which its map walks them, a number as it is
/// displayed.
pub uninterp spec fn value_json(v: serde_json::Value) -> JsonView;

/// What `serde_json::from_str` reads from a text; `None` where it reports an
/// error.
pub uninterp spec fn text_json(text: Seq<char>) -> Option<JsonView>;

/// What `serde_json::from_slice` reads from bytes; where it reports an error,
/// that error as it is displayed.
pub uninterp spec fn bytes_json(bytes: Seq<u8>) -> Result<JsonView, Seq<char>>;

/// Calls `serde_json::from_str` for a `serde_json::Value`. Trusted: whether it
/// succeeds, and what the value then holds, depends on the text alone and is
/// what [`text_json`] names.
#[verifier::external_body]
fn value_of_text(text: &str) -> (r: Option<serde_json::Value>)
    ensures
        r is Some == text_json(text@) is Some,
        r matches Some(v) ==> value_json(v) == text_json(text@)->0,
{
    serde_json::from_str(text).ok()
}

/// Calls `serde_json::from_slice` for a `serde_json::Value`. Trusted: whether it
/// succeeds, what the value then holds, and how the error is displayed if it
/// does not, depends on the bytes alone and is what [`bytes_json`] names.
#[verifier::external_body]
fn value_of_bytes(bytes: &[u8]) -> (r: Result<serde_json::Value, String>)
    ensures
        r is Ok == bytes_json(bytes@) is Ok,
        r matches Ok(v) ==> value_json(v) == bytes_json(bytes@)->Ok_0,
        r matches Err(e) ==> e@ == bytes_json(bytes@)->Err_0,
{
    serde_json::from_slice(bytes).map_err(|e| e.to_string())
}

/// The outermost layer of a `serde_json::Value`: one variant for each of its
/// own, with the contents as that variant holds them.
enum Layer<'a> {
    Null,
    Bool(bool),
    Number(String),
    Text(&'a String),
    Array(&'a Vec<serde_json::Value>),
    Object(Vec<(&'a String, &'a serde_json::Value)>),
}

/// The JSON value that a layer is the outside of.
spec fn layer_json(layer: Layer) -> JsonView {
    match layer {
        Layer::Null => JsonView::Null,
        Layer::Bool(b) => JsonView::Bool(b),
        Layer::Number(n) => JsonView::Number(n@),
        Layer::Text(t) => JsonView::Text(t@),
        Layer::Array(items) => JsonView::Array(
            Seq::new(items@.len(), |i: int| value_json(items@[i])),
        ),
        Layer::Object(entries) => JsonView::Object(
            Seq::new(entries@.len(), |i: int| (entries@[i].0@, value_json(*entries@[i].1))),
        ),
    }
}

/// Tells the variants of `serde_json::Value` apart. Trusted: the layer is that
/// of what the value holds, with `serde_json::Number` displayed and
/// `serde_json::Map` walked in its own order.
#[verifier::external_body]
fn outer_layer<'a>(v: &'a serde_json::Value) -> (layer: Layer<'a>)
    ensures
        layer_json(layer) == value_json(*v),
{
    match v {
        serde_json::Value::Null => Layer::Null,
        serde_json::Value::Bool(b) => Layer::Bool(*b),
        serde_json::Value::Number(n) => Layer::Number(n.to_string()),
        serde_json::Value::String(s) => Layer::Text(s),
        serde_json::Value::Array(items) => Layer::Array(items),
        serde_json::Value::Object(map) => Layer::Object(map.iter().collect()),
    }
}

/// Unfolds a `serde_json::Value` into the JSON value that it holds.
fn from_value(v: &serde_json::Value) -> (j: Json)
    ensures
        j@ == value_json(*v),
    decreases value_json(*v),
{
    match outer_layer(v) {
        Layer::Null => Json::Null,
        Layer::Bool(b) => Json::Bool(b),
        Layer::Number(n) => Json::Number(n),
        Layer::Text(t) => Json::Text(t.clone()),
        Layer::Array(items) => {
            let mut out: Vec<Json> = Vec::new();
            let mut i: usize = 0;
            while i < items.len()
                invariant
                    i <= items@.len(),
                    out@.len() == i,
                    value_json(*v) == JsonView::Array(
                        Seq::new(items@.len(), |k: int| value_json(items@[k])),
                    ),
                    forall|k: int| 0 <= k < i ==> (#[trigger] out@[k])@ == value_json(items@[k]),
                decreases items@.len() - i,
            {
                proof {
                    let s = value_json(*v)->Array_0;
                    assert(s[i as int] == value_json(items@[i as int]));
                    assert(decreases_to!(value_json(*v) => s));
                    assert(decreases_to!(s => s[i as int]));
                }
                out.push(from_value(&items[i]));
                i += 1;
            }
            let j = Json::Array(out);
            assert(j@->Array_0 =~= value_json(*v)->Array_0);
            j
        },
        Layer::Object(entries) => {
            let mut out: Vec<(String, Json)> = Vec::new();
            let mut i: usize = 0;
            while i < entries.len()
                invariant
                    i <= entries@.len(),
                    out@.len() == i,
                    value_json(*v) == JsonView::Object(
                        Seq::new(
                            entries@.len(),
                            |k: int| (entries@[k].0@, value_json(*entries@[k].1)),
                        ),
                    ),
                    forall|k: int| #![trigger out@[k]]
                        0 <= k < i ==> out@[k].0@ == entries@[k].0@ && out@[k].1@ == value_json(
                            *entries@[k].1,
                        ),
                decreases entries@.len() - i,
            {
                proof {
                    let s = value_json(*v)->Object_0;
                    assert(s[i as int].1 == value_json(*entries@[i as int].1));
                    assert(decreases_to!(value_json(*v) => s));
                    assert(decreases_to!(s => s[i as int]));
                    assert(decreases_to!(s[i as int] => s[i as int].1));
                }
                let (key, value) = entries[i];
                out.push((key.clone(), from_value(value)));
                i += 1;
            }
            let j = Json::Object(out);
            assert(j@->Object_0 =~= value_json(*v)->Object_0);
            j
        },
    }
}

/// Reads a JSON text; `None` where it is none.
pub fn parse_text(text: &str) -> (r: Option<Json>)
    ensures
        r is Some == text_json(text@) is Some,
        r matches Some(j) ==> j@ == text_json(text@)->0,
{
    match value_of_text(text) {
        Some(v) => Some(from_value(&v)),
        None => None,
    }
}

/// Reads JSON from bytes; where they are none, says why.
pub fn parse_bytes(bytes: &[u8]) -> (r: Result<Json, String>)
    ensures
        r is Ok == bytes_json(bytes@) is Ok,
        r matches Ok(j) ==> j@ == bytes_json(bytes@)->Ok_0,
        r matches Err(e) ==> e@ == bytes_json(bytes@)->Err_0,
{
    match value_of_bytes(bytes) {
        Ok(v) => Ok(from_value(&v)),
        Err(e) => Err(e),
    }
}

/// A value is found under a key if and only if it is the one of the first entry
/// with that key, and none is found if and only if there is no such entry.
pub proof fn law_first_entry_counts(
    entries: Seq<(Seq<char>, JsonView)>,
    key: Seq<char>,
    i: int,
)
    ensures
        0 <= i < entries.len() && entries[i].0 == key && (forall|k: int|
            0 <= k < i ==> (#[trigger] entries[k]).0 != key) ==> JsonView::Object(entries).get(key)
            == Some(entries[i].1),
        JsonView::Object(entries).get(key) is None <==> forall|k: int|
            0 <= k < entries.len() ==> (#[trigger] entries[k]).0 != key,
    decreases entries.len(),
{
    if entries.len() > 0 {
        let rest = entries.drop_first();
        assert(forall|k: int| 0 <= k < rest.len() ==> rest[k] == entries[k + 1]);
        law_first_entry_counts(rest, key, i - 1);
        if entries[0].0 != key {
            if forall|k: int| 0 <= k < rest.len() ==> (#[trigger] rest[k]).0 != key {
                assert forall|k: int| 0 <= k < entries.len() implies (#[trigger] entries[k]).0
                    != key by {
                    if k > 0 {
                        assert(rest[k - 1].0 != key);
                    }
                }
            } else {
                let k = choose|k: int| 0 <= k < rest.len() && (#[trigger] rest[k]).0 == key;
                assert(entries[k + 1].0 == key);
            }
        }
    }
}

/// Only an object has values under keys; where there is none, `Null` stands for it;
/// and only a text is a text.
pub proof fn law_values_are_reached_as_they_are(v: JsonView, key: Seq<char>, t: Seq<char>)
    ensures
        !(v is Object) ==> v.get(key) is None,
        v.get(key) is None ==> v.at(key) == JsonView::Null,
        v.get(key) matches Some(inner) ==> v.at(key) == inner,
        v.text() == Some(t) <==> v == JsonView::Text(t),
        v.text() is None <==> !(v is Text),
{
}

/// A value stands for what it holds, item by item and entry by entry.
pub proof fn law_values_stand_for_what_they_hold(j: Json)
    ensures
        j is Null ==> j@ == JsonView::Null,
        j matches Json::Bool(b) ==> j@ == JsonView::Bool(b),
        j matches Json::Number(n) ==> j@ == JsonView::Number(n@),
        j matches Json::Text(t) ==> j@ == JsonView::Text(t@),
        j matches Json::Array(items) ==> j@ is Array && j@->Array_0.len() == items@.len()
            && forall|i: int|
            0 <= i < items@.len() ==> #[trigger] j@->Array_0[i] == items@[i]@,
        j matches Json::Object(entries) ==> j@ is Object && j@->Object_0.len() == entries@.len()
            && forall|i: int|
            0 <= i < entries@.len() ==> #[trigger] j@->Object_0[i] == (
                entries@[i].0@,
                entries@[i].1@,
            ),
{
}

} // verus!
