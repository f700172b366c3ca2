//! JSON documents as plain values.
use crate::text::{chars_of, parse_u64, parsed_u64, str_equal};
use vstd::prelude::*;

verus! {

/// A JSON value. A number is kept as its text.
#[derive(Debug, PartialEq, Eq)]
pub enum Json {
    Null,
    Bool(bool),
    Number(String),
    Text(String),
    List(Vec<Json>),
    Object(Vec<(String, Json)>),
}

/// What a JSON value holds.
pub enum JsonView {
    Null,
    Bool(bool),
    Number(Seq<char>),
    Text(Seq<char>),
    List(Seq<JsonView>),
    Object(Seq<(Seq<char>, JsonView)>),
}

/// What a JSON value holds.
pub open spec fn json_view(j: Json) -> JsonView
    decreases j,
{
    match j {
        Json::Null => JsonView::Null,
        Json::Bool(b) => JsonView::Bool(b),
        Json::Number(n) => JsonView::Number(n@),
        Json::Text(s) => JsonView::Text(s@),
        Json::List(items) => JsonView::List(
            Seq::new(
                items@.len(),
                |i: int|
                    if 0 <= i < items@.len() {
                        json_view(items@[i])
                    } else {
                        JsonView::Null
                    },
            ),
        ),
        Json::Object(fields) => JsonView::Object(
            Seq::new(
                fields@.len(),
                |i: int|
                    if 0 <= i < fields@.len() {
                        (fields@[i].0@, json_view(fields@[i].1))
                    } else {
                        (Seq::empty(), JsonView::Null)
                    },
            ),
        ),
    }
}

impl View for Json {
    type V = JsonView;

    open spec fn view(&self) -> JsonView {
        json_view(*self)
    }
}

impl DeepView for Json {
    type V = JsonView;

    open spec fn deep_view(&self) -> JsonView {
        self@
    }
}

impl Clone for Json {
    fn clone(&self) -> (r: Self)
        ensures
            r@ == self@,
        decreases self,
    {
        match self {
            Json::Null => Json::Null,
            Json::Bool(b) => Json::Bool(*b),
            Json::Number(n) => Json::Number(n.clone()),
            Json::Text(s) => Json::Text(s.clone()),
            Json::List(items) => {
                let mut r: Vec<Json> = Vec::new();
                let mut i: usize = 0;
                while i < items.len()
                    invariant
                        *self == Json::List(*items),
                        i <= items@.len(),
                        r@.len() == i,
                        forall|k: int| 0 <= k < i ==> json_view(#[trigger] r@[k]) == json_view(items@[k]),
                    decreases items@.len() - i,
                {
                    let item = &items[i];
                    assert(decreases_to!(*self => (*self)->List_0));
                    assert(decreases_to!(*self => (*self)->List_0@));
                    assert(decreases_to!(*self => (*self)->List_0@[i as int]));
                    r.push(item.clone());
                    i = i + 1;
                }
                let out = Json::List(r);
                assert(out@->List_0 =~= self@->List_0);
                out
            },
            Json::Object(fields) => {
                let mut r: Vec<(String, Json)> = Vec::new();
                let mut i: usize = 0;
                while i < fields.len()
                    invariant
                        *self == Json::Object(*fields),
                        i <= fields@.len(),
                        r@.len() == i,
                        forall|k: int|
                            0 <= k < i ==> (#[trigger] r@[k]).0@ == fields@[k].0@ && json_view(r@[k].1)
                                == json_view(fields@[k].1),
                    decreases fields@.len() - i,
                {
                    let field = &fields[i];
                    assert(decreases_to!(*self => (*self)->Object_0));
                    assert(decreases_to!(*self => (*self)->Object_0@));
                    assert(decreases_to!(*self => (*self)->Object_0@[i as int]));
                    assert(decreases_to!(*self => (*self)->Object_0@[i as int].1));
                    r.push((field.0.clone(), field.1.clone()));
                    i = i + 1;
                }
                let out = Json::Object(r);
                assert(out@->Object_0 =~= self@->Object_0);
                out
            },
        }
    }
}

/// `serde_json::Value`, the outside form of a JSON value.
#[verifier::external_type_specification]
#[verifier::external_body]
pub struct ExValue(serde_json::Value);

/// What `serde_json::from_slice` makes of some bytes: a value where they are one
/// JSON document, otherwise the text of the error.
pub uninterp spec fn json_parsed(bytes: Seq<u8>) -> Result<serde_json::Value, Seq<char>>;

/// What a `serde_json::Value` holds.
pub uninterp spec fn json_contents(value: serde_json::Value) -> JsonView;

/// `serde_json::from_slice` into a `serde_json::Value`. Claims the named value,
/// or the named text of the error.
#[verifier::external_body]
fn value_from_slice(bytes: &[u8]) -> (r: Result<serde_json::Value, String>)
    ensures
        match r {
            Ok(value) => json_parsed(bytes@) == Ok::<_, Seq<char>>(value),
            Err(e) => json_parsed(bytes@) == Err::<serde_json::Value, _>(e@),
        },
{
    serde_json::from_slice(bytes).map_err(|e| e.to_string())
}

/// The variants of `serde_json::Value`, one for one, a number by its text.
/// Claims the named contents.
#[verifier::external_body]
fn json_of(value: serde_json::Value) -> (r: Json)
    ensures
        r@ == json_contents(value),
{
    match value {
        serde_json::Value::Null => Json::Null,
        serde_json::Value::Bool(b) => Json::Bool(b),
        serde_json::Value::Number(n) => Json::Number(n.to_string()),
        serde_json::Value::String(s) => Json::Text(s),
        serde_json::Value::Array(items) => Json::List(items.into_iter().map(json_of).collect()),
        serde_json::Value::Object(map) => {
            Json::Object(map.into_iter().map(|(key, value)| (key, json_of(value))).collect())
        },
    }
}

/// The `serde_json::Value` that holds a JSON value.
pub uninterp spec fn json_value(j: JsonView) -> serde_json::Value;

/// The variants of `serde_json::Value`, one for one, a number read from its text by
/// `serde_json::Number::from_str`; a text that is no number there is null. Claims
/// the named value.
#[verifier::external_body]
fn value_of(j: &Json) -> (r: serde_json::Value)
    ensures
        r == json_value(j@),
{
    match j {
        Json::Null => serde_json::Value::Null,
        Json::Bool(b) => serde_json::Value::Bool(*b),
        Json::Number(n) => n.parse().map_or(serde_json::Value::Null, serde_json::Value::Number),
        Json::Text(s) => serde_json::Value::String(s.clone()),
        Json::List(items) => serde_json::Value::Array(items.iter().map(value_of).collect()),
        Json::Object(fields) => {
            let pairs = fields.iter().map(|f| (f.0.clone(), value_of(&f.1)));
            serde_json::Value::Object(pairs.collect())
        },
    }
}

/// What `serde_json::Value::to_string` prints for a value: its compact JSON text.
pub uninterp spec fn json_text(value: serde_json::Value) -> Seq<char>;

/// `serde_json::Value::to_string`. Claims the named text.
#[verifier::external_body]
fn value_text(value: &serde_json::Value) -> (r: String)
    ensures
        r@ == json_text(*value),
{
    value.to_string()
}

/// The compact JSON text of a value.
pub open spec fn json_rendered(j: JsonView) -> Seq<char> {
    json_text(json_value(j))
}

/// What some bytes hold as a JSON document.
pub open spec fn json_document(bytes: Seq<u8>) -> Option<JsonView> {
    match json_parsed(bytes) {
        Ok(value) => Some(json_contents(value)),
        Err(_) => None,
    }
}

/// Why some bytes are no JSON document.
pub open spec fn json_error(bytes: Seq<u8>) -> Seq<char> {
    match json_parsed(bytes) {
        Ok(_) => Seq::empty(),
        Err(e) => e,
    }
}

impl JsonView {
    /// The position of the first field of a name at or after a position.
    pub open spec fn field_from(fields: Seq<(Seq<char>, JsonView)>, key: Seq<char>, i: int) -> Option<
        JsonView,
    >
        decreases fields.len() - i,
    {
        if i >= fields.len() {
            None
        } else if fields[i].0 == key {
            Some(fields[i].1)
        } else {
            Self::field_from(fields, key, i + 1)
        }
    }

    /// The field of a name, where this is an object that has it.
    pub open spec fn get(self, key: Seq<char>) -> Option<JsonView> {
        match self {
            JsonView::Object(fields) => Self::field_from(fields, key, 0),
            _ => None,
        }
    }

    /// The text, where this is one.
    pub open spec fn text(self) -> Option<Seq<char>> {
        match self {
            JsonView::Text(s) => Some(s),
            _ => None,
        }
    }

    /// The text of a field, where it is one.
    pub open spec fn text_field(self, key: Seq<char>) -> Option<Seq<char>> {
        match self.get(key) {
            Some(v) => v.text(),
            None => None,
        }
    }

    /// The unsigned integer, where this is one.
    pub open spec fn unsigned(self) -> Option<u64> {
        match self {
            JsonView::Number(n) => parsed_u64(n),
            _ => None,
        }
    }

    /// The items, where this is a list.
    pub open spec fn items(self) -> Option<Seq<JsonView>> {
        match self {
            JsonView::List(items) => Some(items),
            _ => None,
        }
    }
}

impl Json {
    /// Reads a JSON document.
    pub fn from_slice(bytes: &[u8]) -> (r: Option<Json>)
        ensures
            r.deep_view() == json_document(bytes@),
    {
        match value_from_slice(bytes) {
            Ok(value) => Some(json_of(value)),
            Err(_) => None,
        }
    }

    /// Reads a JSON document, or tells why it is none.
    pub fn parse(bytes: &[u8]) -> (r: Result<Json, String>)
        ensures
            match r {
                Ok(doc) => json_document(bytes@) == Some(doc@),
                Err(e) => json_document(bytes@) is None && e@ == json_error(bytes@),
            },
    {
        match value_from_slice(bytes) {
            Ok(value) => Ok(json_of(value)),
            Err(e) => Err(e),
        }
    }

    /// The compact JSON text.
    pub fn text(&self) -> (r: String)
        ensures
            r@ == json_rendered(self@),
    {
        value_text(&value_of(self))
    }

    /// The field of a name.
    pub fn get(&self, key: &str) -> (r: Option<&Json>)
        ensures
            r.deep_view() == self@.get(key@),
    {
        match self {
            Json::Object(fields) => {
                let ghost all = self@->Object_0;
                let mut i: usize = 0;
                while i < fields.len()
                    invariant
                        i <= fields@.len(),
                        *self == Json::Object(*fields),
                        all == self@->Object_0,
                        JsonView::field_from(all, key@, 0) == JsonView::field_from(
                            all,
                            key@,
                            i as int,
                        ),
                    decreases fields@.len() - i,
                {
                    assert(all[i as int] == (fields@[i as int].0@, fields@[i as int].1@));
                    if str_equal(fields[i].0.as_str(), key) {
                        return Some(&fields[i].1);
                    }
                    i = i + 1;
                }
                None
            },
            _ => None,
        }
    }

    /// The text, where this is one.
    pub fn as_str(&self) -> (r: Option<&String>)
        ensures
            r.deep_view() == self@.text(),
    {
        match self {
            Json::Text(s) => Some(s),
            _ => None,
        }
    }

    /// The text of a field, where it is one.
    pub fn text_field(&self, key: &str) -> (r: Option<&String>)
        ensures
            r.deep_view() == self@.text_field(key@),
    {
        match self.get(key) {
            Some(v) => v.as_str(),
            None => None,
        }
    }

    /// The unsigned integer, where this is one.
    pub fn as_u64(&self) -> (r: Option<u64>)
        ensures
            r == self@.unsigned(),
    {
        match self {
            Json::Number(n) => {
                let chars = chars_of(n.as_str());
                assert(chars@.subrange(0, chars@.len() as int) =~= n@);
                parse_u64(&chars, 0, chars.len())
            },
            _ => None,
        }
    }

    /// The items, where this is a list.
    pub fn as_list(&self) -> (r: Option<&Vec<Json>>)
        ensures
            r.deep_view() == self@.items(),
    {
        match self {
            Json::List(items) => {
                assert(items.deep_view() =~= self@->List_0);
                Some(items)
            },
            _ => None,
        }
    }
}

} // verus!
