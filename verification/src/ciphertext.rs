//! LWE ciphertexts: a mask `a` of `n` coefficients followed by the body `b`.
use crate::word::FheUint;
use vstd::prelude::*;

verus! {

/// An LWE ciphertext `(a_0, ..., a_{n-1}, b)`.
#[derive(Debug, Clone, PartialEq, Eq)]
pub struct LweCiphertext<T: FheUint>(pub Vec<T>);

impl<T: FheUint> LweCiphertext<T> {
    /// Returns the LWE dimension `n`.
    pub fn dimension(&self) -> (r: usize)
        requires
            self.0@.len() > 0,
        ensures
            r == self.0@.len() - 1,
    {
        self.0.len() - 1
    }

    /// Returns the coefficients `(a, b)`.
    pub fn as_slice(&self) -> (r: &[T])
        ensures
            r@ == self.0@,
    {
        self.0.as_slice()
    }
}

} // verus!
