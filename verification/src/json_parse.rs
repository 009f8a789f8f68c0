//! Reading a response body as JSON with `serde_json`, and writing a parsed body
//! back as compact JSON text.

use vstd::prelude::*;

use crate::json::JsonValue;

verus! {

#[verifier::external_type_specification]
#[verifier::external_body]
pub struct ExJsonDocument(serde_json::Value);

/// The document `serde_json::from_slice::<serde_json::Value>` reads from `body`,
/// seen as a `JsonValue` (a number keeps the text `serde_json` writes for it,
/// an object its members in `serde_json`'s key order); nothing when `body` is
/// not one JSON document.
pub uninterp spec fn json_document(body: Seq<u8>) -> Option<JsonValue>;

/// The message (`Display`) of the error `serde_json::from_slice` reports for
/// `body` when it is not one JSON document.
pub uninterp spec fn json_parse_error(body: Seq<u8>) -> Seq<char>;

/// The compact text (`serde_json::Value`'s `Display`) of the document read from
/// `body`.
pub uninterp spec fn json_text(body: Seq<u8>) -> Seq<char>;

/// The text `String::from_utf8_lossy` makes of `bytes`: invalid sequences
/// become U+FFFD.
pub uninterp spec fn utf8_lossy(bytes: Seq<u8>) -> Seq<char>;

/// `serde_json::Value` turned into the library's JSON value, variant by
/// variant (numbers by their `Display` text). It only converts, so it states
/// nothing of its own: what the callers state rests on `json_document`.
#[verifier::external_body]
fn document_as_json(value: serde_json::Value) -> JsonValue {
    match value {
        serde_json::Value::Null => JsonValue::Null,
        serde_json::Value::Bool(b) => JsonValue::Bool(b),
        serde_json::Value::Number(n) => JsonValue::Number(n.to_string()),
        serde_json::Value::String(s) => JsonValue::String(s),
        serde_json::Value::Array(items) => JsonValue::Array(items.into_iter().map(document_as_json).collect()),
        serde_json::Value::Object(members) => JsonValue::Object(
            members.into_iter().map(|(k, v)| (k, document_as_json(v))).collect(),
        ),
    }
}

/// `serde_json::from_slice::<serde_json::Value>(body)`: the document and, when
/// the body is no JSON document, the parser's message.
#[verifier::external_body]
pub(crate) fn parse_json_body(body: &[u8]) -> (r: Result<JsonValue, String>)
    ensures
        r matches Ok(v) ==> json_document(body@) == Some(v),
        r matches Err(e) ==> json_document(body@) is None && e@ == json_parse_error(body@),
{
    match serde_json::from_slice::<serde_json::Value>(body) {
        Ok(value) => Ok(document_as_json(value)),
        Err(e) => Err(e.to_string()),
    }
}

/// The compact JSON text of the document in `body`
/// (`serde_json::from_slice` then `Value::to_string`), when there is one.
#[verifier::external_body]
pub(crate) fn render_json_body(body: &[u8]) -> (r: Option<String>)
    ensures
        r is None <==> json_document(body@) is None,
        r matches Some(t) ==> t@ == json_text(body@),
{
    match serde_json::from_slice::<serde_json::Value>(body) {
        Ok(value) => Some(value.to_string()),
        Err(_) => None,
    }
}

/// `String::from_utf8_lossy(bytes)`, owned. An ASCII body reads as itself.
#[verifier::external_body]
pub(crate) fn lossy_text(bytes: &[u8]) -> (r: String)
    ensures
        r@ == utf8_lossy(bytes@),
        (forall|i: int| 0 <= i < bytes@.len() ==> #[trigger] bytes@[i] < 128) ==> r@ == bytes@.map(
            |i: int, b: u8| b as char,
        ),
{
    String::from_utf8_lossy(bytes).into_owned()
}

} // verus!
