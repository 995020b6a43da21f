//! The boundary to `serde_json`.
//!
//! JSON text is parsed and string literals are written by `serde_json`. A
//! parsed document stays a `serde_json::Value`; the library reads it through
//! the few accessors below. What such a value holds is modelled by
//! [`JsonValue`], and every contract in this module is a statement about that
//! model which Verus takes on trust.

use vstd::prelude::*;

verus! {

/// `serde_json::Value`, a parsed JSON document. Nothing is known of what is
/// inside but what the accessors below say.
#[verifier::external_type_specification]
#[verifier::external_body]
pub struct ExValue(serde_json::Value);

/// `serde_json::Error`, why parsing or writing failed. It is only carried.
#[verifier::external_type_specification]
#[verifier::external_body]
pub struct ExJsonError(serde_json::Error);

/// What a JSON document holds, as far as this library reads it.
pub enum JsonValue {
    Null,
    Bool(bool),
    /// A number. The field holds it when it is an integer from 0 to 2^64 - 1,
    /// and is `None` for every other number.
    Number(Option<u64>),
    Text(Seq<char>),
    Array(Seq<JsonValue>),
    Object(Map<Seq<char>, JsonValue>),
}

impl JsonValue {
    /// The member of an object under a key.
    pub open spec fn field(self, key: Seq<char>) -> Option<JsonValue> {
        match self {
            JsonValue::Object(members) => if members.contains_key(key) {
                Some(members[key])
            } else {
                None
            },
            _ => None,
        }
    }

    /// The text of a string.
    pub open spec fn as_text(self) -> Option<Seq<char>> {
        match self {
            JsonValue::Text(t) => Some(t),
            _ => None,
        }
    }

    /// The value of a number that fits in `u64`.
    pub open spec fn as_count(self) -> Option<u64> {
        match self {
            JsonValue::Number(n) => n,
            _ => None,
        }
    }

    /// The items of an array.
    pub open spec fn as_items(self) -> Option<Seq<JsonValue>> {
        match self {
            JsonValue::Array(items) => Some(items),
            _ => None,
        }
    }
}

/// What a parsed document holds.
pub uninterp spec fn json_model(v: serde_json::Value) -> JsonValue;

/// What a byte string holds when read as one JSON document, or `None` where
/// it is not one.
pub uninterp spec fn json_parse(bytes: Seq<u8>) -> Option<JsonValue>;

/// What each of a sequence of parsed documents holds.
pub open spec fn item_models(items: Seq<serde_json::Value>) -> Seq<JsonValue> {
    items.map_values(|v: serde_json::Value| json_model(v))
}

/// The sixteen hexadecimal digits, in lower case.
pub open spec fn hex_digit(n: int) -> char {
    seq!['0', '1', '2', '3', '4', '5', '6', '7', '8', '9', 'a', 'b', 'c', 'd', 'e', 'f'][n]
}

/// How one character stands inside a JSON string literal: the quotation mark,
/// the backslash and the characters below U+0020 are escaped, every other
/// character stands for itself.
pub open spec fn escaped_char(c: char) -> Seq<char> {
    if c == '"' {
        seq!['\\', '"']
    } else if c == '\\' {
        seq!['\\', '\\']
    } else if c == '\u{08}' {
        seq!['\\', 'b']
    } else if c == '\t' {
        seq!['\\', 't']
    } else if c == '\n' {
        seq!['\\', 'n']
    } else if c == '\u{0C}' {
        seq!['\\', 'f']
    } else if c == '\r' {
        seq!['\\', 'r']
    } else if (c as u32) < 0x20 {
        seq!['\\', 'u', '0', '0', hex_digit((c as u32) as int / 16), hex_digit((c as u32) as int % 16)]
    } else {
        seq![c]
    }
}

/// A text with each character escaped.
pub open spec fn escaped_text(s: Seq<char>) -> Seq<char>
    decreases s.len(),
{
    if s.len() == 0 {
        Seq::empty()
    } else {
        escaped_text(s.drop_last()) + escaped_char(s.last())
    }
}

/// The JSON string literal of a text.
pub open spec fn json_quote(s: Seq<char>) -> Seq<char> {
    seq!['"'] + escaped_text(s) + seq!['"']
}

/// `serde_json::from_slice` at `serde_json::Value`: parses a byte string that
/// holds exactly one JSON document. Trusted: that the outcome depends on the
/// bytes alone, which gives it the name `json_parse`.
#[verifier::external_body]
pub(crate) fn parse_value(bytes: &[u8]) -> (r: Result<serde_json::Value, serde_json::Error>)
    ensures
        match r {
            Ok(v) => json_parse(bytes@) == Some(json_model(v)),
            Err(_) => json_parse(bytes@) is None,
        },
{
    serde_json::from_slice::<serde_json::Value>(bytes)
}

/// `serde_json::Value::get` with a string key. Trusted: it returns the member
/// under that key when the value is an object that has one, else `None`.
#[verifier::external_body]
pub(crate) fn member<'a>(v: &'a serde_json::Value, key: &str) -> (r: Option<&'a serde_json::Value>)
    ensures
        match r {
            Some(m) => json_model(*v).field(key@) == Some(json_model(*m)),
            None => json_model(*v).field(key@) is None,
        },
{
    v.get(key)
}

/// `serde_json::Value::as_str`. Trusted: it returns the text when the value is
/// a string, else `None`.
#[verifier::external_body]
pub(crate) fn text_of<'a>(v: &'a serde_json::Value) -> (r: Option<&'a str>)
    ensures
        match r {
            Some(t) => json_model(*v).as_text() == Some(t@),
            None => json_model(*v).as_text() is None,
        },
{
    v.as_str()
}

/// `serde_json::Value::as_u64`. Trusted: it returns the number when the value
/// is an integer from 0 to 2^64 - 1, else `None`.
#[verifier::external_body]
pub(crate) fn count_of(v: &serde_json::Value) -> (r: Option<u64>)
    ensures
        r == json_model(*v).as_count(),
{
    v.as_u64()
}

/// `serde_json::Value::as_array`. Trusted: it returns the items, in order,
/// when the value is an array, else `None`.
#[verifier::external_body]
pub(crate) fn items_of<'a>(v: &'a serde_json::Value) -> (r: Option<&'a Vec<serde_json::Value>>)
    ensures
        match r {
            Some(items) => json_model(*v).as_items() == Some(item_models(items@)),
            None => json_model(*v).as_items() is None,
        },
{
    v.as_array()
}

/// `serde_json::Value::is_null`. Trusted: it tells whether the value is
/// `null`.
#[verifier::external_body]
pub(crate) fn is_null(v: &serde_json::Value) -> (r: bool)
    ensures
        r == (json_model(*v) is Null),
{
    v.is_null()
}

/// `serde_json::Value::is_object`. Trusted: it tells whether the value is an
/// object.
#[verifier::external_body]
pub(crate) fn is_object(v: &serde_json::Value) -> (r: bool)
    ensures
        r == (json_model(*v) is Object),
{
    v.is_object()
}

/// `serde_json::to_string` at `str`: writes a text as a JSON string literal.
/// Trusted: the literal is the text between two quotation marks, escaped as
/// `escaped_char` says, and writing it into memory does not fail.
#[verifier::external_body]
pub(crate) fn quote_text(text: &str) -> (r: Result<String, serde_json::Error>)
    ensures
        match r {
            Ok(s) => s@ == json_quote(text@),
            Err(_) => false,
        },
{
    serde_json::to_string(text)
}

} // verus!
