//! JSON text, as `serde_json` reads it.

use vstd::prelude::*;

verus! {

/// `serde_json::Error`, carried along as it came.
#[verifier::external_type_specification]
#[verifier::external_body]
pub struct ExJsonError(serde_json::Error);

/// Whether `serde_json::from_str` accepts the text as a JSON value.
pub uninterp spec fn json_document(text: Seq<char>) -> bool;

/// `serde_json::from_str`, asked for a `serde_json::Value`: whether it reads `text` without an
/// error depends on the text alone.
#[verifier::external_body]
pub(crate) fn is_json(text: &str) -> (r: bool)
    ensures
        r == json_document(text@),
{
    serde_json::from_str::<serde_json::Value>(text).is_ok()
}

} // verus!
