//! secp256k1 keys: secret keys are 32-byte scalars in `1..n`, public keys are
//! carried in their 33-byte compressed serialization.

use vstd::prelude::*;
use crate::encoding::{be_value, encode, hex_lower, to_array_32};

verus! {

/// The order `n` of the secp256k1 group.
pub open spec fn curve_order() -> nat {
    0xFFFF_FFFF_FFFF_FFFF_FFFF_FFFF_FFFF_FFFE_BAAE_DCE6_AF48_A03B_BFD2_5E8C_D036_4141nat
}

/// A valid secret key: 32 bytes whose big-endian value is neither zero nor
/// at least the group order.
pub open spec fn valid_secret_key(bytes: Seq<u8>) -> bool {
    &&& bytes.len() == 32
    &&& 0 < be_value(bytes)
    &&& be_value(bytes) < curve_order()
}

/// The compressed serialization of the public key of a secret key: the
/// generator multiplied by the scalar, as `secp256k1::PublicKey::from_secret_key`
/// followed by `PublicKey::serialize` computes it.
pub uninterp spec fn secp256k1_compressed_public_key(secret: Seq<u8>) -> Seq<u8>;

/// Calls `secp256k1::SecretKey::from_slice` and reports whether it accepted
/// `data`. The contract claims what the crate's source shows: the slice is
/// accepted exactly when it is 32 bytes long and `secp256k1_ec_seckey_verify`
/// finds its big-endian value neither zero nor at least the group order.
#[verifier::external_body]
fn secp256k1_accepts_secret_key(data: &[u8]) -> (accepted: bool)
    ensures
        accepted == valid_secret_key(data@),
{
    secp256k1::SecretKey::from_slice(data).is_ok()
}

/// Calls `secp256k1::PublicKey::from_secret_key` on the key that
/// `secp256k1::SecretKey::from_slice` makes of `secret`, and returns
/// `PublicKey::serialize` of it. The contract names the result, a function of
/// the secret alone, and claims the one fact the source shows of its form: the
/// compressed serialization starts with the tag `0x02` or `0x03`.
#[verifier::external_body]
fn secp256k1_public_key_of(secret: &[u8; 32]) -> (compressed: [u8; 33])
    requires
        valid_secret_key(secret@),
    ensures
        compressed@ == secp256k1_compressed_public_key(secret@),
        compressed[0] == 2 || compressed[0] == 3,
{
    let key = secp256k1::SecretKey::from_slice(secret).expect("valid secret key");
    secp256k1::PublicKey::from_secret_key(&secp256k1::Secp256k1::new(), &key).serialize()
}

/// A secp256k1 secret key.
pub struct SecretKey {
    bytes: [u8; 32],
}

impl View for SecretKey {
    type V = Seq<u8>;

    closed spec fn view(&self) -> Seq<u8> {
        self.bytes@
    }
}

impl SecretKey {
    #[verifier::type_invariant]
    spec fn is_valid(self) -> bool {
        valid_secret_key(self.bytes@)
    }

    /// The secret key held in `data`, if it is a valid one.
    pub fn from_slice(data: &[u8]) -> (key: Option<SecretKey>)
        ensures
            key is Some <==> valid_secret_key(data@),
            key matches Some(k) ==> k@ == data@,
    {
        if !secp256k1_accepts_secret_key(data) {
            return None;
        }
        Some(SecretKey { bytes: to_array_32(data) })
    }

    /// The 32 bytes of the key.
    pub fn secret_bytes(&self) -> (bytes: [u8; 32])
        ensures
            bytes@ == self@,
            valid_secret_key(bytes@),
    {
        proof {
            use_type_invariant(self);
        }
        self.bytes
    }
}

/// A secp256k1 public key, held as its compressed serialization.
#[derive(Clone, Copy, Debug)]
pub struct PublicKey {
    compressed: [u8; 33],
}

impl View for PublicKey {
    type V = Seq<u8>;

    closed spec fn view(&self) -> Seq<u8> {
        self.compressed@
    }
}

impl PublicKey {
    /// The public key of `secret`.
    pub(crate) fn from_secret_key(secret: &SecretKey) -> (key: PublicKey)
        ensures
            key@ == secp256k1_compressed_public_key(secret@),
            key@.len() == 33,
            key@[0] == 2 || key@[0] == 3,
    {
        let bytes = secret.secret_bytes();
        PublicKey { compressed: secp256k1_public_key_of(&bytes) }
    }

    /// The 33-byte compressed serialization.
    pub fn serialize(&self) -> (bytes: [u8; 33])
        ensures
            bytes@ == self@,
    {
        self.compressed
    }

    /// The text form of the key: the lowercase hexadecimal of its compressed
    /// serialization, as the key's `Display` writes it.
    pub fn to_string(&self) -> (text: String)
        ensures
            text@ == hex_lower(self@),
            text@.len() == 66,
    {
        let bytes = self.compressed;
        encode(&bytes)
    }
}

} // verus!
