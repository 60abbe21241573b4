use vstd::prelude::*;

verus! {

/// The JSON string literal (quotes and escapes included) that
/// serde_json produces for the text `s`.
pub uninterp spec fn json_string_of(s: Seq<char>) -> Seq<char>;

/// Relies on serde_json::to_string applied to a string value: the
/// output depends on the characters alone, and serialising a plain
/// string into the in-memory buffer cannot fail.
#[verifier::external_body]
pub(crate) fn json_encode_string(s: &str) -> (r: String)
    ensures
        r@ == json_string_of(s@),
{
    match serde_json::to_string(s) {
        Ok(r) => r,
        Err(_) => String::new(),
    }
}

} // verus!
