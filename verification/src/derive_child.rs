//! Child key derivation: HMAC-SHA512 keyed by the parent chain code over the
//! parent secret key followed by the big-endian child index. The first half
//! of the tag is the child secret key, the second half the child chain code.

use vstd::prelude::*;
use crate::encoding::{be_value, lemma_u32_be_bytes_value, to_array_32, u32_be_bytes, u32_to_be_bytes};
use crate::mac::{hmac_sha512, spec_hmac_sha512};
use crate::secp::{PublicKey, SecretKey, valid_secret_key, secp256k1_compressed_public_key};

verus! {

/// The message that the derivation authenticates: the parent key's 32 bytes,
/// then the index in big-endian order.
pub open spec fn serialized_private_key(key: Seq<u8>, index: u32) -> Seq<u8> {
    key + u32_be_bytes(index)
}

/// The 64-byte HMAC-SHA512 tag of a derivation step.
pub open spec fn derivation_tag(parent_key: Seq<u8>, chain_code: Seq<u8>, index: u32) -> Seq<u8> {
    spec_hmac_sha512(chain_code, serialized_private_key(parent_key, index))
}

/// The child secret key of a derivation step: the first 32 bytes of the tag.
pub open spec fn child_key_bytes(parent_key: Seq<u8>, chain_code: Seq<u8>, index: u32) -> Seq<u8> {
    derivation_tag(parent_key, chain_code, index).subrange(0, 32)
}

/// The child chain code of a derivation step: the last 32 bytes of the tag.
pub open spec fn child_chain_code(parent_key: Seq<u8>, chain_code: Seq<u8>, index: u32) -> Seq<u8> {
    derivation_tag(parent_key, chain_code, index).subrange(32, 64)
}

/// A derivation step succeeds when the parent key is a valid secret key and
/// the first half of the tag is one too.
pub open spec fn derivable(parent_key: Seq<u8>, chain_code: Seq<u8>, index: u32) -> bool {
    &&& valid_secret_key(parent_key)
    &&& valid_secret_key(child_key_bytes(parent_key, chain_code, index))
}

/// The key's bytes followed by the big-endian index.
pub fn serialize_private_key(key: &SecretKey, index: u32) -> (serialized: Vec<u8>)
    ensures
        serialized@ == serialized_private_key(key@, index),
        serialized@.len() == 36,
{
    let bytes = key.secret_bytes();
    let index_bytes = u32_to_be_bytes(index);
    let mut serialized: Vec<u8> = Vec::new();
    for i in 0..32
        invariant
            bytes@.len() == 32,
            serialized@ == bytes@.subrange(0, i as int),
    {
        serialized.push(bytes[i]);
        assert(bytes@.subrange(0, i + 1) =~= bytes@.subrange(0, i as int).push(bytes@[i as int]));
    }
    for i in 0..4
        invariant
            bytes@.len() == 32,
            serialized@ == bytes@ + index_bytes@.subrange(0, i as int),
    {
        serialized.push(index_bytes[i]);
        assert(index_bytes@.subrange(0, i + 1) =~= index_bytes@.subrange(0, i as int).push(index_bytes@[i as int]));
    }
    assert(bytes@.subrange(0, 32) =~= bytes@);
    assert(index_bytes@.subrange(0, 4) =~= index_bytes@);
    serialized
}

/// Splits a 64-byte derivation tag into the child secret key and the child
/// chain code; `None` when the first half is not a valid secret key.
pub fn split_derivation_tag(tag: &[u8]) -> (child: Option<(SecretKey, [u8; 32])>)
    requires
        tag@.len() == 64,
    ensures
        child is Some <==> valid_secret_key(tag@.subrange(0, 32)),
        child matches Some((key, code)) ==> {
            &&& key@ == tag@.subrange(0, 32)
            &&& code@ == tag@.subrange(32, 64)
        },
{
    let (head, tail) = tag.split_at(32);
    match SecretKey::from_slice(head) {
        Some(key) => Some((key, to_array_32(tail))),
        None => None,
    }
}

/// Derives the child secret key and chain code of `index` from a parent
/// secret key and chain code.
pub fn derive_child_key(parent_key: &[u8], chain_code: &[u8], index: u32) -> (child: (SecretKey, [u8; 32]))
    requires
        derivable(parent_key@, chain_code@, index),
    ensures
        child.0@ == child_key_bytes(parent_key@, chain_code@, index),
        child.1@ == child_chain_code(parent_key@, chain_code@, index),
{
    let parent_key = SecretKey::from_slice(parent_key).unwrap();
    let message = serialize_private_key(&parent_key, index);
    let tag = hmac_sha512(chain_code, message.as_slice());
    split_derivation_tag(tag.as_slice()).unwrap()
}

/// Derives the child secret key and chain code of `index`, or `None` where
/// the parent key or the derived key is not a valid secret key.
pub fn try_derive_child_key(parent_key: &[u8], chain_code: &[u8], index: u32) -> (child: Option<(SecretKey, [u8; 32])>)
    ensures
        child is Some <==> derivable(parent_key@, chain_code@, index),
        child matches Some((key, code)) ==> {
            &&& key@ == child_key_bytes(parent_key@, chain_code@, index)
            &&& code@ == child_chain_code(parent_key@, chain_code@, index)
        },
{
    let parent = match SecretKey::from_slice(parent_key) {
        Some(parent) => parent,
        None => return None,
    };
    let message = serialize_private_key(&parent, index);
    let tag = hmac_sha512(chain_code, message.as_slice());
    match split_derivation_tag(tag.as_slice()) {
        Some(_) => Some(derive_child_key(parent_key, chain_code, index)),
        None => None,
    }
}

/// The public key of a secret key.
pub fn generate_public_key(private_key: &SecretKey) -> (public_key: PublicKey)
    ensures
        public_key@ == secp256k1_compressed_public_key(private_key@),
        public_key@.len() == 33,
        public_key@[0] == 2 || public_key@[0] == 3,
{
    PublicKey::from_secret_key(private_key)
}

/// Different indexes give different derivation messages for the same parent
/// key, so each index has a derivation of its own.
pub proof fn lemma_serialization_distinguishes_indexes(key: Seq<u8>, i: u32, j: u32)
    requires
        serialized_private_key(key, i) == serialized_private_key(key, j),
    ensures
        i == j,
{
    let a = serialized_private_key(key, i);
    let b = serialized_private_key(key, j);
    lemma_u32_be_bytes_value(i);
    lemma_u32_be_bytes_value(j);
    assert(a.subrange(key.len() as int, a.len() as int) =~= u32_be_bytes(i));
    assert(b.subrange(key.len() as int, b.len() as int) =~= u32_be_bytes(j));
}

/// The derivation message is the parent key in its own byte order followed
/// by four bytes that read back, most significant first, as the index.
pub proof fn lemma_serialized_private_key_layout(key: Seq<u8>, index: u32)
    ensures
        serialized_private_key(key, index).len() == key.len() + 4,
        forall|j: int| 0 <= j < key.len() ==> #[trigger] serialized_private_key(key, index)[j] == key[j],
        be_value(serialized_private_key(key, index).subrange(key.len() as int, key.len() + 4int)) == index,
{
    let m = serialized_private_key(key, index);
    lemma_u32_be_bytes_value(index);
    assert(m.subrange(key.len() as int, key.len() + 4int) =~= u32_be_bytes(index));
}

/// A derivation step is HMAC-SHA512 keyed by the chain code exactly as given,
/// over the derivation message: the child key is the first half of the tag,
/// the child chain code the second half, and the step succeeds exactly when
/// the parent key and the first half are valid secret keys.
pub proof fn lemma_derivation_is_hmac_keyed_by_chain_code(parent_key: Seq<u8>, chain_code: Seq<u8>, index: u32)
    ensures
        child_key_bytes(parent_key, chain_code, index)
            == spec_hmac_sha512(chain_code, serialized_private_key(parent_key, index)).subrange(0, 32),
        child_chain_code(parent_key, chain_code, index)
            == spec_hmac_sha512(chain_code, serialized_private_key(parent_key, index)).subrange(32, 64),
        derivable(parent_key, chain_code, index) == (valid_secret_key(parent_key) && valid_secret_key(
            spec_hmac_sha512(chain_code, serialized_private_key(parent_key, index)).subrange(0, 32),
        )),
{
}

} // verus!
