//! Arithmetic substrate for a lattice-based scheme over GF(q), q = 8380417,
//! and the polynomial ring R_q = Z_q[X]/(X^256 + 1): canonical field elements
//! with constant-time-style modular arithmetic (Montgomery multiplication),
//! and degree-256 polynomials with coefficient-wise operations.

pub mod field;
pub mod poly;

pub use field::FieldElement;
pub use field::Integer;
pub use poly::Polynomial;
