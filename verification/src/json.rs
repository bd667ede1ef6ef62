//! The one outside call the event mapper leans on: parsing accumulated
//! tool-call argument text as JSON.

use vstd::prelude::*;

verus! {

#[verifier::external_type_specification]
#[verifier::external_body]
pub struct ExJsonValue(serde_json::Value);

/// Whether `serde_json` accepts `s` as a JSON document. Which strings it
/// accepts depends on the text alone. No contract says what this holds of
/// any given string: callers learn it only by calling [`parse_json`].
pub uninterp spec fn parses_as_json(s: Seq<char>) -> bool;

/// Relies on `serde_json::Value::from_str`: parses a string as a JSON
/// value; whether it succeeds is a function of the string alone. On failure
/// the result carries serde's diagnostic, of which nothing is promised.
#[verifier::external_body]
pub(crate) fn parse_json(s: &str) -> (r: Result<serde_json::Value, String>)
    ensures
        r is Ok <==> parses_as_json(s@),
{
    match <serde_json::Value as core::str::FromStr>::from_str(s) {
        Ok(value) => Ok(value),
        Err(error) => Err(error.to_string()),
    }
}

} // verus!
