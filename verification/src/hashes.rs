//! The hash functions that the signature scheme is built on.
pub mod sha3;
pub mod sha256;
pub mod hmac;
