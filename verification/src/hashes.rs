//! Trusted access to the SHA-256 and HMAC-SHA-256 primitives.
//!
//! The digests themselves are not restated here: each is given a name, and
//! every contract downstream speaks of that name.

use vstd::prelude::*;

verus! {

/// The SHA-256 digest of a byte string.
pub uninterp spec fn sha256_of(data: Seq<u8>) -> Seq<u8>;

/// The HMAC-SHA-256 of a message under a key.
pub uninterp spec fn hmac_sha256_of(key: Seq<u8>, data: Seq<u8>) -> Seq<u8>;

/// Relies on hmac_sha256::Hash::hash: the SHA-256 digest of the input,
/// a function of the input bytes alone, 32 bytes long.
#[verifier::external_body]
pub(crate) fn sha256(data: &[u8]) -> (r: Vec<u8>)
    ensures
        r@ == sha256_of(data@),
        r@.len() == 32,
{
    hmac_sha256::Hash::hash(data).to_vec()
}

/// Relies on hmac_sha256::HMAC::mac: the HMAC-SHA-256 of the message under
/// the key, a function of the two byte strings alone, 32 bytes long.
#[verifier::external_body]
pub(crate) fn hmac(key: &[u8], data: &[u8]) -> (r: Vec<u8>)
    ensures
        r@ == hmac_sha256_of(key@, data@),
        r@.len() == 32,
{
    hmac_sha256::HMAC::mac(data, key).to_vec()
}

} // verus!
