//! Hierarchical key derivation from a configured root key and chain code.
//!
//! A child secret key and chain code are derived with HMAC-SHA512 keyed by the
//! root chain code over the root secret key followed by the big-endian child
//! index; the child public key is the compressed secp256k1 point of the child
//! secret key.

pub mod encoding;
pub mod secp;
pub mod mac;
pub mod derive_child;
pub mod config;
pub mod service;

pub use config::Config;
pub use encoding::encode;
