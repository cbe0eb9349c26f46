//! LWE encryption parameters.
use crate::parameter::glwe::cipher_modulus_ok;
use crate::plaintext::{codec_params_ok, PlaintextCodec};
use crate::secret_key_type::LweSecretKeyType;
use crate::word::{modulus_value, FheUint};
use vstd::prelude::*;

verus! {

/// LWE parameters: dimension, ciphertext modulus, secret-key distribution,
/// noise and plaintext encoding.
///
/// The ciphertext modulus is `Some(q)` for an explicit modulus and `None`
/// for the native modulus `2^BITS`; the noise standard deviation is held as
/// the bit pattern of its IEEE-754 double.
#[derive(Copy, Debug)]
pub struct LweParameters<T: FheUint> {
    dimension: usize,
    cipher_modulus: Option<T>,
    secret_key_type: LweSecretKeyType,
    noise_standard_deviation: u64,
    plaintext_codec: PlaintextCodec<T>,
}

impl<T: FheUint> Clone for LweParameters<T> {
    fn clone(&self) -> (r: Self)
        ensures
            r == *self,
    {
        *self
    }
}

impl<T: FheUint> LweParameters<T> {
    #[verifier::type_invariant]
    closed spec fn inv(self) -> bool {
        &&& cipher_modulus_ok(self.cipher_modulus)
        &&& self.plaintext_codec.modulus_spec() == modulus_value(self.cipher_modulus)
        &&& self.plaintext_codec.is_native_spec() == (self.cipher_modulus is None)
    }

    pub closed spec fn dimension_spec(self) -> nat {
        self.dimension as nat
    }

    pub closed spec fn cipher_modulus_spec(self) -> Option<T> {
        self.cipher_modulus
    }

    pub closed spec fn secret_key_type_spec(self) -> LweSecretKeyType {
        self.secret_key_type
    }

    pub closed spec fn noise_standard_deviation_spec(self) -> u64 {
        self.noise_standard_deviation
    }

    pub closed spec fn plaintext_codec_spec(self) -> PlaintextCodec<T> {
        self.plaintext_codec
    }

    /// Creates LWE parameters.
    pub fn new(
        dimension: usize,
        plain_modulus_value: T,
        cipher_modulus: Option<T>,
        secret_key_type: LweSecretKeyType,
        noise_standard_deviation: u64,
    ) -> (p: Self)
        requires
            codec_params_ok(plain_modulus_value, cipher_modulus),
        ensures
            p.dimension_spec() == dimension,
            p.cipher_modulus_spec() == cipher_modulus,
            p.secret_key_type_spec() == secret_key_type,
            p.noise_standard_deviation_spec() == noise_standard_deviation,
            p.plaintext_codec_spec().t_spec() == plain_modulus_value.nat_value(),
            p.plaintext_codec_spec().modulus_spec() == modulus_value(cipher_modulus),
    {
        let plaintext_codec = PlaintextCodec::new(plain_modulus_value, cipher_modulus);
        LweParameters {
            dimension,
            cipher_modulus,
            secret_key_type,
            noise_standard_deviation,
            plaintext_codec,
        }
    }

    /// Returns the LWE dimension.
    pub fn dimension(&self) -> (r: usize)
        ensures
            r == self.dimension_spec(),
    {
        self.dimension
    }

    /// Returns the plaintext modulus `t`.
    pub fn plain_modulus_value(&self) -> (r: T)
        ensures
            r.nat_value() == self.plaintext_codec_spec().t_spec(),
    {
        self.plaintext_codec.t()
    }

    /// Returns the cipher modulus (`None` for the native modulus).
    pub fn cipher_modulus(&self) -> (r: Option<T>)
        ensures
            r == self.cipher_modulus_spec(),
            cipher_modulus_ok(r),
    {
        proof {
            use_type_invariant(self);
        }
        self.cipher_modulus
    }

    /// Returns the secret-key distribution type.
    pub fn secret_key_type(&self) -> (r: LweSecretKeyType)
        ensures
            r == self.secret_key_type_spec(),
    {
        self.secret_key_type
    }

    /// Returns the noise standard deviation (IEEE-754 bit pattern).
    pub fn noise_standard_deviation(&self) -> (r: u64)
        ensures
            r == self.noise_standard_deviation_spec(),
    {
        self.noise_standard_deviation
    }

    /// Returns the preselected plaintext codec.
    pub fn plaintext_codec(&self) -> (r: &PlaintextCodec<T>)
        ensures
            *r == self.plaintext_codec_spec(),
            r.modulus_spec() == modulus_value(self.cipher_modulus_spec()),
            r.is_native_spec() == (self.cipher_modulus_spec() is None),
    {
        proof {
            use_type_invariant(self);
        }
        &self.plaintext_codec
    }
}

} // verus!
