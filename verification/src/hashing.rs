use vstd::prelude::*;

use sha2::Digest;

use crate::hex::{spec_hex, to_hex};

verus! {

/// The SHA-256 digest of the UTF-8 bytes of a text, as its 32 output
/// bytes. What the bytes are is not modelled: the digest is a fixed
/// function of the input alone.
pub uninterp spec fn sha256_of(s: Seq<char>) -> Seq<u8>;

/// Relies on sha2's Sha256 through Digest::digest: the digest depends on
/// the input bytes alone, and SHA-256 output is 32 bytes.
#[verifier::external_body]
fn sha256_digest(s: &str) -> (r: Vec<u8>)
    ensures
        r@ == sha256_of(s@),
        r@.len() == 32,
{
    sha2::Sha256::digest(s.as_bytes()).as_slice().to_vec()
}

/// The lower-case hex form of the SHA-256 digest of `s`: 64 hex digits.
pub open spec fn sha256_hex_of(s: Seq<char>) -> Seq<char> {
    spec_hex(sha256_of(s))
}

/// The lower-case hex form of the SHA-256 digest of `s`, as API keys are
/// stored and compared.
pub fn sha256_hex(s: &str) -> (r: String)
    ensures
        r@ == sha256_hex_of(s@),
{
    let digest = sha256_digest(s);
    to_hex(&digest)
}

} // verus!
