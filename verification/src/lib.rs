//! Finite-field arithmetic for cryptographic protocols.
//!
//! The heart of the library is the family of binary tower fields: fields of
//! characteristic 2 in which the field of height `h` is a quadratic extension
//! of the field of height `h - 1`, down to the field with two elements. The
//! model of such a field, the laws proved of it (it is a field, and its
//! elements' inverses are their powers to the order less 2) and the
//! executable element type are under [`field`].
//!
//! Around it stand a small curve with its pairing, the hash functions, and the
//! aggregate signature scheme built from them.
pub mod field;
pub mod curve;
pub mod pairing;
pub mod hashes;
pub mod signatures;
