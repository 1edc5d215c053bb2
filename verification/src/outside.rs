//! What the engine takes on trust: conversions of text that the standard
//! library and `serde_json` perform.
use vstd::prelude::*;
use vstd::utf8::{decode_utf8, valid_utf8};
use crate::json::{Json, JsonView};
use crate::text::bytes_of;

verus! {

/// `serde_json::Value`: the engine hands such values on without looking
/// into them.
#[verifier::external_type_specification]
#[verifier::external_body]
pub struct ExOutsideJson(serde_json::Value);

/// The canonical decimal text of the JSON number that `text` spells, if it
/// spells one: what `serde_json` prints for the number it reads from `text`.
pub uninterp spec fn json_number(text: Seq<u8>) -> Option<Seq<char>>;

/// The compact JSON text that `serde_json` writes for one of its values.
pub uninterp spec fn outside_text(value: serde_json::Value) -> Seq<char>;

/// The compact JSON text of a document.
pub uninterp spec fn json_text(value: JsonView) -> Seq<char>;

/// `String::from_utf8`: succeeds on well-formed UTF-8 and on nothing else,
/// and the string it gives holds the bytes it was given.
#[verifier::external_body]
pub(crate) fn text_from_utf8(bytes: Vec<u8>) -> (r: Option<String>)
    ensures
        r is Some <==> valid_utf8(bytes@),
        r matches Some(s) ==> s@ == decode_utf8(bytes@) && bytes_of(s@) == bytes@,
{
    match String::from_utf8(bytes) {
        Ok(s) => Some(s),
        Err(_) => None,
    }
}

/// `serde_json::from_slice` into a `serde_json::Number`, printed again by
/// the number's `Display`: the result is a function of the text alone, and
/// there is none where `serde_json` does not accept the text as a number.
#[verifier::external_body]
pub(crate) fn number_text(text: &[u8]) -> (r: Option<String>)
    ensures
        match r {
            Some(s) => json_number(text@) == Some(s@),
            None => json_number(text@) is None,
        },
{
    match serde_json::from_slice::<serde_json::Number>(text) {
        Ok(n) => Some(n.to_string()),
        Err(_) => None,
    }
}

/// Builds the `serde_json::Value` for a document, variant by variant; a
/// number is read from its text by `serde_json::from_str`, and is `null`
/// where the text is no number. The text that `serde_json` writes for the
/// result is, by definition, the JSON text of the document.
#[verifier::external_body]
pub(crate) fn to_outside(v: &Json) -> (r: serde_json::Value)
    ensures
        outside_text(r) == json_text(v@),
{
    match v {
        Json::Null => serde_json::Value::Null,
        Json::Bool(b) => serde_json::Value::Bool(*b),
        Json::Number(n) => match serde_json::from_str::<serde_json::Number>(n) {
            Ok(n) => serde_json::Value::Number(n),
            Err(_) => serde_json::Value::Null,
        },
        Json::String(s) => serde_json::Value::String(s.clone()),
        Json::Array(a) => serde_json::Value::Array(a.iter().map(to_outside).collect()),
        Json::Object(o) => serde_json::Value::Object(
            o.iter().map(|e| (e.0.clone(), to_outside(&e.1))).collect(),
        ),
    }
}

/// `serde_json::to_string` on a `serde_json::Value`, which cannot fail: the
/// keys of its maps are strings.
#[verifier::external_body]
pub(crate) fn text_of(value: &serde_json::Value) -> (r: String)
    ensures
        r@ == outside_text(*value),
{
    serde_json::to_string(value).unwrap_or_default()
}

} // verus!
