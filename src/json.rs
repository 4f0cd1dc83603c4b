use vstd::prelude::*;

verus! {

/// serde_json's parsed JSON value, carried opaquely to the handler.
#[verifier::external_type_specification]
#[verifier::external_body]
pub struct ExJsonValue(serde_json::Value);

/// serde_json's parse error, carried opaquely.
#[verifier::external_type_specification]
#[verifier::external_body]
pub struct ExJsonError(serde_json::Error);

/// Whether serde_json reads `s` as one `serde_json::Value` (one JSON document,
/// with whitespace around it at most, within serde_json's nesting limit).
pub uninterp spec fn is_json_text(s: Seq<char>) -> bool;

/// Relies on `serde_json::from_str::<serde_json::Value>`: whether it succeeds
/// depends on the text alone.
#[verifier::external_body]
pub(crate) fn parse_json(s: &str) -> (r: Result<serde_json::Value, serde_json::Error>)
    ensures
        r is Ok <==> is_json_text(s@),
{
    serde_json::from_str::<serde_json::Value>(s)
}

} // verus!
