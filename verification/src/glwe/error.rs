//! Errors of GLWE secret-key construction.
use vstd::prelude::*;

verus! {

/// Errors returned while constructing a GLWE secret key.
#[derive(Debug, Clone, PartialEq, Eq, Structural)]
pub enum GlweSecretKeyError {
    /// The source LWE secret key is empty.
    ZeroLweDimension,
    /// The requested polynomial length is not supported.
    InvalidPolynomialLength {
        /// Requested polynomial length.
        poly_length: usize,
    },
    /// Rounding the LWE dimension up to a complete polynomial overflowed
    /// `usize`.
    CapacityOverflow {
        /// Source LWE dimension.
        lwe_dimension: usize,
        /// Requested polynomial length.
        poly_length: usize,
    },
}

} // verus!
