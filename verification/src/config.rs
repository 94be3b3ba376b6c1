//! The root of the derivation: a root secret key and a root chain code, each
//! 32 bytes, read from configuration text.

use vstd::prelude::*;
use crate::derive_child::{self, child_chain_code, child_key_bytes, derivable, lemma_derivation_is_hmac_keyed_by_chain_code, lemma_serialized_private_key_layout, serialized_private_key};
use crate::encoding::be_value;
use crate::mac::spec_hmac_sha512;
use crate::secp::valid_secret_key;
use crate::encoding::to_array_32;
use vstd::string::StringSliceAdditionalSpecFns;
use crate::secp::{PublicKey, SecretKey, secp256k1_compressed_public_key};

verus! {

/// Why a configuration value was refused.
#[derive(Clone, Copy, Debug, PartialEq, Eq, Structural)]
pub enum ConfigError {
    /// The value is not exactly 32 bytes long.
    InvalidByteArraySize,
}

/// The 32 bytes of a configuration value: the UTF-8 bytes of the text, which
/// must be exactly 32 long.
pub fn root_bytes_from_str(text: &str) -> (bytes: Result<[u8; 32], ConfigError>)
    ensures
        bytes is Ok <==> text.spec_bytes().len() == 32,
        bytes matches Ok(b) ==> b@ == text.spec_bytes(),
        bytes matches Err(e) ==> e == ConfigError::InvalidByteArraySize,
{
    let raw = text.as_bytes();
    if raw.len() != 32 {
        return Err(ConfigError::InvalidByteArraySize);
    }
    Ok(to_array_32(raw))
}

/// The root key material that every child key is derived from.
#[derive(Debug)]
pub struct Config {
    root_key_bytes: [u8; 32],
    root_chain_code: [u8; 32],
}

impl Config {
    /// The root secret key's bytes.
    pub closed spec fn root_key(&self) -> Seq<u8> {
        self.root_key_bytes@
    }

    /// The root chain code.
    pub closed spec fn root_chain(&self) -> Seq<u8> {
        self.root_chain_code@
    }

    /// Whether the child of `index` can be derived.
    pub open spec fn can_derive(&self, index: u32) -> bool {
        derivable(self.root_key(), self.root_chain(), index)
    }

    /// The child secret key of `index`.
    pub open spec fn child_key(&self, index: u32) -> Seq<u8> {
        child_key_bytes(self.root_key(), self.root_chain(), index)
    }

    /// The child chain code of `index`.
    pub open spec fn child_chain(&self, index: u32) -> Seq<u8> {
        child_chain_code(self.root_key(), self.root_chain(), index)
    }

    /// The compressed child public key of `index`.
    pub open spec fn child_public_key(&self, index: u32) -> Seq<u8> {
        secp256k1_compressed_public_key(self.child_key(index))
    }

    /// A configuration with the given root key and root chain code.
    pub fn new(root_key_bytes: [u8; 32], root_chain_code: [u8; 32]) -> (config: Config)
        ensures
            config.root_key() == root_key_bytes@,
            config.root_chain() == root_chain_code@,
    {
        Config { root_key_bytes, root_chain_code }
    }

    /// The root key's bytes.
    pub fn root_key_bytes(&self) -> (bytes: [u8; 32])
        ensures
            bytes@ == self.root_key(),
    {
        self.root_key_bytes
    }

    /// The root chain code.
    pub fn root_chain_code(&self) -> (bytes: [u8; 32])
        ensures
            bytes@ == self.root_chain(),
    {
        self.root_chain_code
    }

    /// The child secret key, child chain code and child public key of `index`.
    pub fn derive_child_key(&self, index: u32) -> (child: (SecretKey, [u8; 32], PublicKey))
        requires
            self.can_derive(index),
        ensures
            child.0@ == self.child_key(index),
            child.1@ == self.child_chain(index),
            child.2@ == self.child_public_key(index),
    {
        let (child_key, child_chain_code) = derive_child::derive_child_key(
            &self.root_key_bytes,
            &self.root_chain_code,
            index,
        );
        let child_public_key = derive_child::generate_public_key(&child_key);
        (child_key, child_chain_code, child_public_key)
    }

    /// As `derive_child_key`, or `None` where the root key or the derived key
    /// is not a valid secret key.
    pub fn try_derive_child_key(&self, index: u32) -> (child: Option<(SecretKey, [u8; 32], PublicKey)>)
        ensures
            child is Some <==> self.can_derive(index),
            child matches Some((key, code, public_key)) ==> {
                &&& key@ == self.child_key(index)
                &&& code@ == self.child_chain(index)
                &&& public_key@ == self.child_public_key(index)
            },
    {
        match derive_child::try_derive_child_key(&self.root_key_bytes, &self.root_chain_code, index) {
            Some(_) => Some(self.derive_child_key(index)),
            None => None,
        }
    }
}

/// The configured child of every index is the derivation step at that very
/// index: with the message made of the 32 root key bytes followed by four
/// bytes that read back as the index, the child key and chain code are the
/// halves of HMAC-SHA512 keyed by the root chain code over that message, and
/// the child public key is the public key of the child key.
pub proof fn lemma_config_child_is_derivation_at_index(config: Config, index: u32)
    ensures
        config.root_key().len() == 32,
        config.root_chain().len() == 32,
        ({
            let message = serialized_private_key(config.root_key(), index);
            let tag = spec_hmac_sha512(config.root_chain(), message);
            &&& message.len() == 36
            &&& message.subrange(0, 32) == config.root_key()
            &&& be_value(message.subrange(32, 36)) == index
            &&& config.child_key(index) == tag.subrange(0, 32)
            &&& config.child_chain(index) == tag.subrange(32, 64)
            &&& config.can_derive(index) == (valid_secret_key(config.root_key())
                && valid_secret_key(tag.subrange(0, 32)))
        }),
        config.child_public_key(index) == secp256k1_compressed_public_key(config.child_key(index)),
{
    let key = config.root_key();
    lemma_serialized_private_key_layout(key, index);
    lemma_derivation_is_hmac_keyed_by_chain_code(key, config.root_chain(), index);
    let message = serialized_private_key(key, index);
    assert(message.subrange(0, 32) =~= key);
}

/// Two different indexes never share a derivation message under one
/// configuration.
pub proof fn lemma_config_indexes_have_distinct_messages(config: Config, i: u32, j: u32)
    requires
        i != j,
    ensures
        serialized_private_key(config.root_key(), i) != serialized_private_key(config.root_key(), j),
{
    if serialized_private_key(config.root_key(), i) == serialized_private_key(config.root_key(), j) {
        derive_child::lemma_serialization_distinguishes_indexes(config.root_key(), i, j);
    }
}

} // verus!
