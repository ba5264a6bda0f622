//! Fields.
//!
//! Binary tower fields: the two-element base field, the mathematical model of
//! a tower element as a vector of coefficients, the laws proved of that
//! model, and the executable element type. Beside them the prime fields and
//! the quadratic extension that the curve is defined over.
pub mod binary_field;
pub mod tower_spec;
pub mod tower_laws;
pub mod frobenius_laws;
pub mod pair_laws;
pub mod field_laws;
pub mod codec_laws;
pub mod coefficients;
pub mod binary_towers;
pub mod element;
pub mod prime;
pub mod extension;
