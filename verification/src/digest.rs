//! The SHA-256 digest, taken on trust from the `sha2` crate.

use vstd::prelude::*;

use sha2::Digest;

verus! {

/// The SHA-256 digest of the UTF-8 encoding of a character sequence. The
/// digest is a fixed function of the input text alone; its definition is
/// left to the `sha2` crate.
pub uninterp spec fn sha256_of(text: Seq<char>) -> Seq<u8>;

/// Relies on sha2::Sha256::digest: hashing the UTF-8 bytes of the input is a
/// pure function of the input text and always yields exactly 32 bytes.
#[verifier::external_body]
pub(crate) fn sha256_digest(input: &str) -> (r: Vec<u8>)
    ensures
        r@ == sha256_of(input@),
        r@.len() == 32,
{
    sha2::Sha256::digest(input.as_bytes()).to_vec()
}

} // verus!
