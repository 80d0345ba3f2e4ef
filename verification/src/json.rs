//! JSON values, read by `serde_json` and carried as it made them.

use vstd::prelude::*;

verus! {

/// `serde_json::Value`, carried as it is: nothing is known of what it holds.
#[verifier::external_type_specification]
#[verifier::external_body]
pub struct ExJsonValue(serde_json::Value);

/// `serde_json::Error`, of which only its being there is used.
#[verifier::external_type_specification]
#[verifier::external_body]
pub struct ExJsonError(serde_json::Error);

/// The value that `serde_json` reads from `text`, or `None` where `text` is
/// no JSON literal.
pub uninterp spec fn json_literal(text: Seq<char>) -> Option<serde_json::Value>;

/// `serde_json::from_str` at `serde_json::Value`. Trusted: that it succeeds
/// exactly on the texts that `json_literal` takes for a literal, then with
/// the value that `json_literal` gives, the same for the same text.
#[verifier::external_body]
pub(crate) fn read_json(text: &str) -> (read: Result<serde_json::Value, serde_json::Error>)
    ensures
        read is Ok <==> json_literal(text@) is Some,
        read matches Ok(value) ==> json_literal(text@) == Some(value),
{
    serde_json::from_str(text)
}

/// `Clone::clone` of `serde_json::Value`. Trusted: that the copy is the
/// value it was taken of.
pub assume_specification[ <serde_json::Value as Clone>::clone ](
    value: &serde_json::Value,
) -> (copy: serde_json::Value)
    ensures
        copy == *value,
;

/// What a field of a JSON body holds.
#[derive(Debug, Clone, PartialEq)]
pub enum JsonValue {
    /// Verbatim text: sent as a JSON string.
    Text(String),
    /// A literal that was read from a typed field: sent with its own type.
    Literal(serde_json::Value),
}

/// A field value as contracts speak of it.
pub enum JsonValueView {
    Text(Seq<char>),
    Literal(serde_json::Value),
}

impl View for JsonValue {
    type V = JsonValueView;

    open spec fn view(&self) -> JsonValueView {
        match *self {
            JsonValue::Text(text) => JsonValueView::Text(text@),
            JsonValue::Literal(value) => JsonValueView::Literal(value),
        }
    }
}

} // verus!
