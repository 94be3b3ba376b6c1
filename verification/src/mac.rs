//! HMAC with SHA-512.

use hmac::Mac;
use vstd::prelude::*;

verus! {

/// HMAC-SHA512 of `data` under `key` (RFC 2104 with SHA-512), as
/// `hmac::Hmac::<sha2::Sha512>` computes it.
pub uninterp spec fn spec_hmac_sha512(key: Seq<u8>, data: Seq<u8>) -> Seq<u8>;

/// Calls `hmac::Hmac::<sha2::Sha512>::new_from_slice(key)`, then `update(data)`
/// and `finalize().into_bytes()`. The contract names the tag, a function of
/// the key and the data alone, and claims its length: SHA-512's output size,
/// 64 bytes. `new_from_slice` of `hmac` 0.12 accepts keys of any length, so
/// the `expect` in the body never fails.
#[verifier::external_body]
pub(crate) fn hmac_sha512(key: &[u8], data: &[u8]) -> (tag: Vec<u8>)
    ensures
        tag@ == spec_hmac_sha512(key@, data@),
        tag@.len() == 64,
{
    let mut mac = hmac::Hmac::<sha2::Sha512>::new_from_slice(key).expect("HMAC accepts any key length");
    mac.update(data);
    mac.finalize().into_bytes().to_vec()
}

} // verus!
