//! Signatures over the curve: the octet-string primitives and the keys,
//! signatures and checks of the aggregate signature scheme.
pub mod octets;
pub mod hash_to_curve;
pub mod bls;
