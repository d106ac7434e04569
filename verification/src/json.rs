//! JSON values as message bodies carry them, and their encoding.
//!
//! A number is kept as its text (as `serde_json` writes it), so that a body
//! passes through the library unchanged; object members keep their order.
use vstd::prelude::*;
use crate::text::{decimal, decimal_chars, owned, string_of};
use serde_json::{Number, Value};

verus! {

/// `serde_json`'s value, used only inside the encoding.
#[verifier::external_type_specification]
#[verifier::external_body]
pub struct ExJsonValue(Value);

/// A JSON value.
#[derive(Debug, PartialEq)]
pub enum JsonValue {
    Null,
    Bool(bool),
    /// A number, by its text.
    Number(String),
    Str(String),
    Array(Vec<JsonValue>),
    Object(Vec<(String, JsonValue)>),
}

/// What a JSON value is.
pub enum JsonView {
    Null,
    Bool(bool),
    Number(Seq<char>),
    Str(Seq<char>),
    Array(Seq<JsonView>),
    Object(Seq<(Seq<char>, JsonView)>),
}

/// The view of a JSON value, member by member.
pub open spec fn json_view(v: JsonValue) -> JsonView
    decreases v,
{
    match v {
        JsonValue::Null => JsonView::Null,
        JsonValue::Bool(b) => JsonView::Bool(b),
        JsonValue::Number(t) => JsonView::Number(t@),
        JsonValue::Str(s) => JsonView::Str(s@),
        JsonValue::Array(items) => JsonView::Array(
            Seq::new(
                items@.len(),
                |i: int|
                    if 0 <= i < items@.len() {
                        json_view(items@[i])
                    } else {
                        JsonView::Null
                    },
            ),
        ),
        JsonValue::Object(members) => JsonView::Object(
            Seq::new(
                members@.len(),
                |i: int|
                    if 0 <= i < members@.len() {
                        (members@[i].0@, json_view(members@[i].1))
                    } else {
                        (Seq::empty(), JsonView::Null)
                    },
            ),
        ),
    }
}

impl View for JsonValue {
    type V = JsonView;

    open spec fn view(&self) -> JsonView {
        json_view(*self)
    }
}

/// A byte as a JSON number: its decimal text.
pub open spec fn byte_number(b: u8) -> JsonView {
    JsonView::Number(decimal(b as nat))
}

/// Bytes as a JSON array of numbers, one per byte.
pub open spec fn byte_array(bs: Seq<u8>) -> JsonView {
    JsonView::Array(bs.map_values(|b: u8| byte_number(b)))
}

impl JsonValue {
    /// An equal copy.
    pub fn duplicate(&self) -> (r: JsonValue)
        ensures
            r@ == self@,
        decreases self,
    {
        match self {
            JsonValue::Null => JsonValue::Null,
            JsonValue::Bool(b) => JsonValue::Bool(*b),
            JsonValue::Number(t) => JsonValue::Number(owned(t.as_str())),
            JsonValue::Str(s) => JsonValue::Str(owned(s.as_str())),
            JsonValue::Array(items) => {
                let mut out: Vec<JsonValue> = Vec::new();
                let mut i: usize = 0;
                while i < items.len()
                    invariant
                        *self == JsonValue::Array(*items),
                        i <= items.len(),
                        out@.len() == i,
                        forall|j: int| 0 <= j < i ==> (#[trigger] out@[j])@ == items@[j]@,
                    decreases items.len() - i,
                {
                    proof {
                        assert(decreases_to!(*self => (*self)->Array_0));
                        assert(decreases_to!(*items => items@));
                        assert(decreases_to!(items@ => items@[i as int]));
                    }
                    let c = items[i].duplicate();
                    out.push(c);
                    i = i + 1;
                }
                let r = JsonValue::Array(out);
                assert(r@ == self@) by {
                    if let JsonView::Array(a) = r@ {
                        if let JsonView::Array(b) = self@ {
                            assert(a =~= b);
                        }
                    }
                }
                r
            },
            JsonValue::Object(members) => {
                let mut out: Vec<(String, JsonValue)> = Vec::new();
                let mut i: usize = 0;
                while i < members.len()
                    invariant
                        *self == JsonValue::Object(*members),
                        i <= members.len(),
                        out@.len() == i,
                        forall|j: int|
                            0 <= j < i ==> (#[trigger] out@[j]).0@ == members@[j].0@ && out@[j].1@
                                == members@[j].1@,
                    decreases members.len() - i,
                {
                    proof {
                        assert(decreases_to!(*self => (*self)->Object_0));
                        assert(decreases_to!(*members => members@));
                        assert(decreases_to!(members@ => members@[i as int]));
                        assert(decreases_to!(members@[i as int] => members@[i as int].1));
                    }
                    let k = owned(members[i].0.as_str());
                    let c = members[i].1.duplicate();
                    out.push((k, c));
                    i = i + 1;
                }
                let r = JsonValue::Object(out);
                assert(r@ == self@) by {
                    if let JsonView::Object(a) = r@ {
                        if let JsonView::Object(b) = self@ {
                            assert(a =~= b);
                        }
                    }
                }
                r
            },
        }
    }

    /// The JSON array of numbers for `bytes`, one number per byte.
    pub fn from_bytes(bytes: &[u8]) -> (r: JsonValue)
        ensures
            r@ == byte_array(bytes@),
    {
        let mut out: Vec<JsonValue> = Vec::new();
        let mut i: usize = 0;
        while i < bytes.len()
            invariant
                i <= bytes.len(),
                out@.len() == i,
                forall|j: int| 0 <= j < i ==> (#[trigger] out@[j])@ == byte_number(bytes@[j]),
            decreases bytes.len() - i,
        {
            let digits = decimal_chars(bytes[i] as u64);
            out.push(JsonValue::Number(string_of(digits.as_slice())));
            i = i + 1;
        }
        let r = JsonValue::Array(out);
        assert(r@ == byte_array(bytes@)) by {
            if let JsonView::Array(a) = r@ {
                assert(a =~= bytes@.map_values(|b: u8| byte_number(b)));
            }
        }
        r
    }
}

/// What `serde_json::to_vec` writes for the JSON value `v`, or the text of
/// the error met on the way (a number whose text `serde_json` does not
/// read as a number).
pub uninterp spec fn json_encoding(v: JsonView) -> core::result::Result<Seq<u8>, Seq<char>>;

/// The `serde_json::Value` for `v`, converted variant for variant; a
/// number's text is read with `str::parse` into `serde_json::Number`, whose
/// error text is returned when it does not read.
#[verifier::external_body]
fn serde_value(v: &JsonValue) -> core::result::Result<Value, String> {
    match v {
        JsonValue::Null => Ok(Value::Null),
        JsonValue::Bool(b) => Ok(Value::Bool(*b)),
        JsonValue::Number(t) => t.parse::<Number>().map(Value::Number).map_err(|e| e.to_string()),
        JsonValue::Str(s) => Ok(Value::String(s.clone())),
        JsonValue::Array(items) => items.iter().map(serde_value).collect::<core::result::Result<_, _>>().map(Value::Array),
        JsonValue::Object(ms) => ms.iter().map(serde_member).collect::<core::result::Result<_, _>>().map(Value::Object),
    }
}

/// One object member converted by [`serde_value`].
#[verifier::external_body]
fn serde_member(m: &(String, JsonValue)) -> core::result::Result<(String, Value), String> {
    Ok((m.0.clone(), serde_value(&m.1)?))
}

/// Converts `v` to a `serde_json::Value` and writes it with
/// `serde_json::to_vec`. Claimed: the outcome is a function of the value
/// alone (named [`json_encoding`]): the bytes, or the error's text.
#[verifier::external_body]
pub(crate) fn encode_json(v: &JsonValue) -> (r: core::result::Result<Vec<u8>, String>)
    ensures
        match r {
            Ok(b) => json_encoding(v@) == Ok::<Seq<u8>, Seq<char>>(b@),
            Err(e) => json_encoding(v@) == Err::<Seq<u8>, Seq<char>>(e@),
        },
{
    serde_json::to_vec(&serde_value(v)?).map_err(|e| e.to_string())
}

/// What a lookup in a JSON document finds: a scalar, or an array or object
/// by its JSON text.
#[derive(Debug)]
pub enum JsonFound {
    Null,
    Bool(bool),
    /// A number, by its text.
    Number(String),
    /// A string, by its contents.
    Str(String),
    /// An array or object, by its JSON text.
    Composite(String),
}

pub enum JsonFoundView {
    Null,
    Bool(bool),
    Number(Seq<char>),
    Str(Seq<char>),
    Composite(Seq<char>),
}

impl View for JsonFound {
    type V = JsonFoundView;

    open spec fn view(&self) -> JsonFoundView {
        match self {
            JsonFound::Null => JsonFoundView::Null,
            JsonFound::Bool(b) => JsonFoundView::Bool(*b),
            JsonFound::Number(t) => JsonFoundView::Number(t@),
            JsonFound::Str(s) => JsonFoundView::Str(s@),
            JsonFound::Composite(t) => JsonFoundView::Composite(t@),
        }
    }
}

/// The text a found value compares as: `null`, `true` or `false`, a
/// number's text, a string's contents, or the JSON text of an array or
/// object.
pub open spec fn found_text(f: JsonFoundView) -> Seq<char> {
    match f {
        JsonFoundView::Null => "null"@,
        JsonFoundView::Bool(b) => if b {
            "true"@
        } else {
            "false"@
        },
        JsonFoundView::Number(t) => t,
        JsonFoundView::Str(s) => s,
        JsonFoundView::Composite(t) => t,
    }
}

impl JsonFound {
    /// The text this value compares as (see [`found_text`]).
    pub fn text(&self) -> (r: String)
        ensures
            r@ == found_text(self@),
    {
        match self {
            JsonFound::Null => owned("null"),
            JsonFound::Bool(b) => if *b {
                owned("true")
            } else {
                owned("false")
            },
            JsonFound::Number(t) => owned(t.as_str()),
            JsonFound::Str(s) => owned(s.as_str()),
            JsonFound::Composite(t) => owned(t.as_str()),
        }
    }
}

/// What `serde_json` finds in the text `body`, read as JSON, at the JSON
/// Pointer `pointer`; `None` when `body` is not JSON or the pointer leads
/// nowhere.
pub uninterp spec fn json_found_at(body: Seq<char>, pointer: Seq<char>) -> Option<JsonFoundView>;

/// Parses `body` with `serde_json::from_str` and looks up `pointer` with
/// `Value::pointer`; the value found is converted variant for variant (a
/// number by its `to_string`, an array or object by its `to_string`, the
/// JSON text). Claimed: the result is `json_found_at(body, pointer)`, a
/// function of the two texts alone.
#[verifier::external_body]
pub(crate) fn json_lookup(body: &str, pointer: &str) -> (r: Option<JsonFound>)
    ensures
        match r {
            Some(f) => json_found_at(body@, pointer@) == Some(f@),
            None => json_found_at(body@, pointer@) is None,
        },
{
    match serde_json::from_str::<Value>(body).ok()?.pointer(pointer)? {
        Value::Null => Some(JsonFound::Null),
        Value::Bool(b) => Some(JsonFound::Bool(*b)),
        Value::Number(n) => Some(JsonFound::Number(n.to_string())),
        Value::String(s) => Some(JsonFound::Str(s.clone())),
        other => Some(JsonFound::Composite(other.to_string())),
    }
}

} // verus!
