//! Recognising JSON text, through serde_json.
use vstd::prelude::*;

verus! {

/// Whether a text is one complete JSON value, as serde_json reads it.
pub uninterp spec fn json_text(s: Seq<char>) -> bool;

/// Relies on `serde_json::from_str::<serde_json::Value>`: whether the text
/// parses as one JSON value; the answer depends on the text alone.
#[verifier::external_body]
pub(crate) fn parses_as_json(s: &str) -> (r: bool)
    ensures
        r == json_text(s@),
{
    serde_json::from_str::<serde_json::Value>(s).is_ok()
}

} // verus!
