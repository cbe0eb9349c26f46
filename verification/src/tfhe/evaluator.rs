//! Errors of TFHE evaluation.
use vstd::prelude::*;

verus! {

/// An error produced while constructing or running a TFHE evaluator.
#[derive(Debug, Clone, PartialEq, Eq, Structural)]
pub enum TfheEvaluationError {
    /// The server key was generated for a different parameter layout.
    IncompatibleServerKey,
    /// The input ciphertext has an unexpected LWE dimension.
    InputDimensionMismatch {
        /// Dimension required by the evaluator.
        expected: usize,
        /// Dimension carried by the input ciphertext.
        actual: usize,
    },
    /// The output ciphertext has an unexpected LWE dimension.
    OutputDimensionMismatch {
        /// Dimension required by the evaluator.
        expected: usize,
        /// Dimension carried by the output ciphertext.
        actual: usize,
    },
    /// The lookup-table accumulator has an unexpected coefficient count.
    LookupTableLengthMismatch {
        /// Required GLWE coefficient count.
        expected: usize,
        /// Supplied GLWE coefficient count.
        actual: usize,
    },
}

} // verus!
