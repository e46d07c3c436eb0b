//! The text of a line, and the JSON value that it spells.

use crate::error::JsonError;
use crate::value::{is_sound, Json, JsonValue, Number};
use vstd::prelude::*;

verus! {

#[verifier::external_type_specification]
#[verifier::external_body]
pub struct ExJsonValue(serde_json::Value);

#[verifier::external_type_specification]
#[verifier::external_body]
pub struct ExJsonError(serde_json::Error);

/// What `serde_json::from_str` reads a text as: the JSON value that it spells, or `None`
/// where the text is refused.
pub uninterp spec fn json_of(text: Seq<char>) -> Option<Json>;

/// The value of `serde_json::Value`, variant for variant. A number is put down by what
/// `serde_json::Number::{as_i64, is_f64, as_f64}` say of it, the double-precision number by
/// its bit pattern.
#[verifier::external_body]
fn value_of(json: serde_json::Value) -> JsonValue {
    match json {
        serde_json::Value::Null => JsonValue::Null,
        serde_json::Value::Bool(b) => JsonValue::Bool(b),
        serde_json::Value::Number(n) => JsonValue::Number(Number {
            as_i64: n.as_i64(),
            is_f64: n.is_f64(),
            as_f64: n.as_f64().map(|x| x.to_bits()),
        }),
        serde_json::Value::String(s) => JsonValue::String(s),
        serde_json::Value::Array(a) => JsonValue::Array(a.into_iter().map(value_of).collect()),
        serde_json::Value::Object(m) => JsonValue::Object(
            m.into_iter().map(|(k, v)| (k, value_of(v))).collect(),
        ),
    }
}

/// `serde_json::from_str`, to a `serde_json::Value`: whether a text is read, and as which
/// value, is settled by the text alone, and where it is read, it is read alike without white
/// space at its ends. The numbers in the value are finite. `serde_json::Number::as_f64` takes
/// an integer to double precision as `num::cast::cast` does, and one of up to 53 bits comes out
/// of it as it went in.
#[verifier::external_body]
fn from_str(text: &str) -> (read: Result<JsonValue, serde_json::Error>)
    ensures
        match read {
            Ok(value) => {
                &&& json_of(text@) == Some(value@)
                &&& json_of(trimmed(text@)) == Some(value@)
                &&& is_sound(value@)
            },
            Err(_) => json_of(text@) is None,
        },
{
    serde_json::from_str(text).map(value_of)
}

/// Reads the text of one JSON value.
pub fn parse(text: &str) -> (read: Result<JsonValue, JsonError>)
    ensures
        match read {
            Ok(value) => {
                &&& json_of(text@) == Some(value@)
                &&& json_of(trimmed(text@)) == Some(value@)
                &&& is_sound(value@)
            },
            Err(error) => json_of(text@) is None && error == JsonError::NotValidJson,
        },
{
    match from_str(text) {
        Ok(value) => Ok(value),
        Err(_) => Err(JsonError::NotValidJson),
    }
}

/// Whether a character has Unicode's property `White_Space`.
pub open spec fn is_white_space(c: char) -> bool {
    ||| '\u{9}' <= c <= '\u{d}'
    ||| c == '\u{20}'
    ||| c == '\u{85}'
    ||| c == '\u{a0}'
    ||| c == '\u{1680}'
    ||| '\u{2000}' <= c <= '\u{200a}'
    ||| c == '\u{2028}'
    ||| c == '\u{2029}'
    ||| c == '\u{202f}'
    ||| c == '\u{205f}'
    ||| c == '\u{3000}'
}

/// The text without the white space at its two ends.
pub open spec fn trimmed(text: Seq<char>) -> Seq<char>
    decreases text.len(),
{
    if text.len() > 0 && is_white_space(text.first()) {
        trimmed(text.drop_first())
    } else if text.len() > 0 && is_white_space(text.last()) {
        trimmed(text.drop_last())
    } else {
        text
    }
}

/// `str::trim`: leading and trailing white space, as Unicode defines it, is left off.
#[verifier::external_body]
pub(crate) fn trim(text: &str) -> (rest: &str)
    ensures
        rest@ == trimmed(text@),
{
    text.trim()
}

} // verus!
