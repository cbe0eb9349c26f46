//! Single-modulus GLWE / GLev / GGSW parameters.
//!
//! A ciphertext modulus is held as `Option<T>`: `Some(q)` for an explicit
//! modulus, `None` for the native wrapping modulus `2^BITS`. A noise
//! standard deviation is held as the bit pattern of its IEEE-754 double.
use crate::parameter::common_size::{glev_shape_ok, glwe_shape_ok, GlevCommonSize, GlweCommonSize};
use crate::plaintext::{codec_params_ok, PlaintextCodec};
use crate::secret_key_type::{f64_bits_eq, f64_bits_equal, ring_key_type_eq, RingSecretKeyType};
use crate::word::{modulus_value, word_modulus, word_modulus_u128, FheUint};
use vstd::prelude::*;

verus! {

/// Compares two optional words by value.
pub fn option_word_eq<T: FheUint>(a: Option<T>, b: Option<T>) -> (r: bool)
    ensures
        r == (a == b),
{
    match (a, b) {
        (Some(x), Some(y)) => {
            proof {
                T::lemma_value_injective(x, y);
            }
            x.to_u128() == y.to_u128()
        },
        (None, None) => true,
        _ => false,
    }
}

/// Compares two words by value.
pub fn word_eq<T: FheUint>(a: T, b: T) -> (r: bool)
    ensures
        r == (a == b),
{
    proof {
        T::lemma_value_injective(a, b);
    }
    a.to_u128() == b.to_u128()
}

/// The shape of a signed gadget decomposition basis: the modulus it
/// decomposes and its number of levels.
#[derive(Clone, Copy, Debug)]
pub struct GadgetBasis<T: FheUint> {
    modulus: Option<T>,
    log_basis: u32,
    decompose_length: usize,
}

impl<T: FheUint> GadgetBasis<T> {
    pub closed spec fn modulus_spec(self) -> Option<T> {
        self.modulus
    }

    pub closed spec fn log_basis_spec(self) -> u32 {
        self.log_basis
    }

    pub closed spec fn decompose_length_spec(self) -> nat {
        self.decompose_length as nat
    }

    /// Describes a basis of `2^log_basis` with `decompose_length` levels for
    /// `modulus` (`None` for the native modulus).
    pub fn new(modulus: Option<T>, log_basis: u32, decompose_length: usize) -> (b: Self)
        ensures
            b.modulus_spec() == modulus,
            b.log_basis_spec() == log_basis,
            b.decompose_length_spec() == decompose_length,
    {
        GadgetBasis { modulus, log_basis, decompose_length }
    }

    /// Returns the modulus the basis decomposes.
    pub fn modulus(&self) -> (r: Option<T>)
        ensures
            r == self.modulus_spec(),
    {
        self.modulus
    }

    /// Returns `log2` of the basis.
    pub fn log_basis(&self) -> (r: u32)
        ensures
            r == self.log_basis_spec(),
    {
        self.log_basis
    }

    /// Returns the number of decomposition levels.
    pub fn decompose_length(&self) -> (r: usize)
        ensures
            r == self.decompose_length_spec(),
    {
        self.decompose_length
    }
}

/// GLWE encryption parameters shared by ordinary and gadget ciphertexts.
#[derive(Copy, Debug)]
pub struct GlweParametersInner<T: FheUint> {
    cipher_modulus_minus_one: T,
    cipher_modulus: Option<T>,
    secret_key_type: RingSecretKeyType,
    noise_standard_deviation: u64,
}

/// Ciphertext moduli accepted by parameter sets: an explicit modulus is at
/// least 2.
pub open spec fn cipher_modulus_ok<T: FheUint>(cipher_modulus: Option<T>) -> bool {
    match cipher_modulus {
        Some(q) => q.nat_value() >= 2,
        None => true,
    }
}

impl<T: FheUint> Clone for GlweParametersInner<T> {
    fn clone(&self) -> (r: Self)
        ensures
            r == *self,
    {
        *self
    }
}

impl<T: FheUint> GlweParametersInner<T> {
    #[verifier::type_invariant]
    closed spec fn inv(self) -> bool {
        &&& cipher_modulus_ok(self.cipher_modulus)
        &&& self.cipher_modulus_minus_one.nat_value() == modulus_value(self.cipher_modulus) - 1
    }

    pub closed spec fn cipher_modulus_spec(self) -> Option<T> {
        self.cipher_modulus
    }

    pub closed spec fn secret_key_type_spec(self) -> RingSecretKeyType {
        self.secret_key_type
    }

    pub closed spec fn noise_standard_deviation_spec(self) -> u64 {
        self.noise_standard_deviation
    }

    /// Creates GLWE encryption and secret-key parameters.
    pub fn new(
        cipher_modulus: Option<T>,
        secret_key_type: RingSecretKeyType,
        noise_standard_deviation: u64,
    ) -> (p: Self)
        requires
            cipher_modulus_ok(cipher_modulus),
        ensures
            p.cipher_modulus_spec() == cipher_modulus,
            p.secret_key_type_spec() == secret_key_type,
            p.noise_standard_deviation_spec() == noise_standard_deviation,
    {
        let q = match cipher_modulus {
            Some(q) => q.to_u128(),
            None => word_modulus_u128::<T>(),
        };
        proof {
            T::lemma_word_facts();
        }
        let cipher_modulus_minus_one = T::from_u128(q - 1);
        GlweParametersInner {
            cipher_modulus_minus_one,
            cipher_modulus,
            secret_key_type,
            noise_standard_deviation,
        }
    }

    /// Returns the cipher modulus (`None` for the native modulus).
    pub fn cipher_modulus(&self) -> (r: Option<T>)
        ensures
            r == self.cipher_modulus_spec(),
            cipher_modulus_ok(r),
    {
        proof {
            use_type_invariant(self);
        }
        self.cipher_modulus
    }

    /// Returns the representable cipher modulus value, when one exists.
    pub fn cipher_modulus_value(&self) -> (r: Option<T>)
        ensures
            r == self.cipher_modulus_spec(),
    {
        self.cipher_modulus
    }

    /// Returns the cipher modulus minus one.
    pub fn cipher_modulus_minus_one(&self) -> (r: T)
        ensures
            r.nat_value() == modulus_value(self.cipher_modulus_spec()) - 1,
    {
        proof {
            use_type_invariant(self);
        }
        self.cipher_modulus_minus_one
    }

    /// Returns the secret-key distribution type.
    pub fn secret_key_type(&self) -> (r: RingSecretKeyType)
        ensures
            r == self.secret_key_type_spec(),
    {
        self.secret_key_type
    }

    /// Returns the noise standard deviation (IEEE-754 bit pattern).
    pub fn noise_standard_deviation(&self) -> (r: u64)
        ensures
            r == self.noise_standard_deviation_spec(),
    {
        self.noise_standard_deviation
    }

    /// Compares two parameter sets field by field; deviations compare as
    /// doubles.
    pub fn same_as(&self, other: &Self) -> (r: bool)
        ensures
            r == (self.cipher_modulus_spec() == other.cipher_modulus_spec() && ring_key_type_eq(
                self.secret_key_type_spec(),
                other.secret_key_type_spec(),
            ) && f64_bits_eq(
                self.noise_standard_deviation_spec(),
                other.noise_standard_deviation_spec(),
            )),
    {
        option_word_eq(self.cipher_modulus, other.cipher_modulus) && self.secret_key_type
            == other.secret_key_type && f64_bits_equal(
            self.noise_standard_deviation,
            other.noise_standard_deviation,
        )
    }
}

/// GLWE parameters including ciphertext sizes and plaintext encoding.
#[derive(Copy, Debug)]
pub struct GlweParameters<T: FheUint> {
    common_size: GlweCommonSize,
    inner: GlweParametersInner<T>,
    plaintext_codec: PlaintextCodec<T>,
}

impl<T: FheUint> Clone for GlweParameters<T> {
    fn clone(&self) -> (r: Self)
        ensures
            r == *self,
    {
        *self
    }
}

impl<T: FheUint> GlweParameters<T> {
    #[verifier::type_invariant]
    closed spec fn inv(self) -> bool {
        &&& self.plaintext_codec.modulus_spec() == modulus_value(self.inner.cipher_modulus_spec())
        &&& self.plaintext_codec.is_native_spec() == (self.inner.cipher_modulus_spec() is None)
    }

    pub closed spec fn common_size_spec(self) -> GlweCommonSize {
        self.common_size
    }

    pub closed spec fn inner_spec(self) -> GlweParametersInner<T> {
        self.inner
    }

    pub closed spec fn plaintext_codec_spec(self) -> PlaintextCodec<T> {
        self.plaintext_codec
    }

    /// Creates a new [`GlweParameters<T>`].
    pub fn new(
        dimension: usize,
        poly_length: usize,
        plain_modulus_value: T,
        cipher_modulus: Option<T>,
        secret_key_type: RingSecretKeyType,
        noise_standard_deviation: u64,
    ) -> (p: Self)
        requires
            glwe_shape_ok(dimension as nat, poly_length as nat),
            codec_params_ok(plain_modulus_value, cipher_modulus),
        ensures
            p.common_size_spec().dimension_spec() == dimension,
            p.common_size_spec().poly_length_spec() == poly_length,
            p.inner_spec().cipher_modulus_spec() == cipher_modulus,
            p.inner_spec().secret_key_type_spec() == secret_key_type,
            p.inner_spec().noise_standard_deviation_spec() == noise_standard_deviation,
            p.plaintext_codec_spec().t_spec() == plain_modulus_value.nat_value(),
            p.plaintext_codec_spec().modulus_spec() == modulus_value(cipher_modulus),
    {
        let common_size = GlweCommonSize::new(dimension, poly_length);
        let plaintext_codec = PlaintextCodec::new(plain_modulus_value, cipher_modulus);
        let inner = GlweParametersInner::new(cipher_modulus, secret_key_type, noise_standard_deviation);
        GlweParameters { common_size, inner, plaintext_codec }
    }

    /// Returns the parameters shared by GLWE and its gadget ciphertexts.
    pub fn inner(&self) -> (r: &GlweParametersInner<T>)
        ensures
            *r == self.inner_spec(),
    {
        &self.inner
    }

    /// Returns the GLWE dimension `k`.
    pub fn dimension(&self) -> (r: usize)
        ensures
            r == self.common_size_spec().dimension_spec(),
    {
        self.common_size.dimension()
    }

    /// Returns the polynomial length `N`.
    pub fn poly_length(&self) -> (r: usize)
        ensures
            r == self.common_size_spec().poly_length_spec(),
            glwe_shape_ok(self.common_size_spec().dimension_spec(), r as nat),
    {
        self.common_size.poly_length()
    }

    /// Returns the pre-computed GLWE size constants.
    pub fn common_size(&self) -> (r: GlweCommonSize)
        ensures
            r == self.common_size_spec(),
    {
        self.common_size
    }

    /// Returns the coefficient/NTT mask length `kN`.
    pub fn glwe_mid(&self) -> (r: usize)
        ensures
            r == self.common_size_spec().glwe_mid_spec(),
    {
        self.common_size.glwe_mid()
    }

    /// Returns the coefficient/NTT GLWE ciphertext length `(k + 1)N`.
    pub fn glwe_len(&self) -> (r: usize)
        ensures
            r == self.common_size_spec().glwe_len_spec(),
    {
        self.common_size.glwe_len()
    }

    /// Returns the coefficient-domain secret-key length `kN`.
    pub fn secret_key_len(&self) -> (r: usize)
        ensures
            r == self.common_size_spec().glwe_mid_spec(),
    {
        self.common_size.secret_key_len()
    }

    /// Returns the Fourier mask length `kN/2`.
    pub fn fourier_glwe_mid(&self) -> (r: usize)
        ensures
            r == self.common_size_spec().glwe_mid_spec() / 2,
    {
        self.common_size.fourier_glwe_mid()
    }

    /// Returns the Fourier GLWE ciphertext length `(k + 1)N/2`.
    pub fn fourier_glwe_len(&self) -> (r: usize)
        ensures
            r == self.common_size_spec().glwe_len_spec() / 2,
    {
        self.common_size.fourier_glwe_len()
    }

    /// Returns the plaintext modulus `t`.
    pub fn plain_modulus_value(&self) -> (r: T)
        ensures
            r.nat_value() == self.plaintext_codec_spec().t_spec(),
    {
        self.plaintext_codec.t()
    }

    /// Returns the preselected plaintext codec.
    pub fn plaintext_codec(&self) -> (r: &PlaintextCodec<T>)
        ensures
            *r == self.plaintext_codec_spec(),
            r.modulus_spec() == modulus_value(self.inner_spec().cipher_modulus_spec()),
            r.is_native_spec() == (self.inner_spec().cipher_modulus_spec() is None),
    {
        proof {
            use_type_invariant(self);
        }
        &self.plaintext_codec
    }

    /// Returns the cipher modulus (`None` for the native modulus).
    pub fn cipher_modulus(&self) -> (r: Option<T>)
        ensures
            r == self.inner_spec().cipher_modulus_spec(),
            cipher_modulus_ok(r),
    {
        self.inner.cipher_modulus()
    }

    /// Returns the explicit cipher modulus value.
    pub fn cipher_modulus_value(&self) -> (r: T)
        requires
            self.inner_spec().cipher_modulus_spec() is Some,
        ensures
            Some(r) == self.inner_spec().cipher_modulus_spec(),
    {
        self.inner.cipher_modulus_value().unwrap()
    }

    /// Returns the cipher modulus minus one.
    pub fn cipher_modulus_minus_one(&self) -> (r: T)
        ensures
            r.nat_value() == modulus_value(self.inner_spec().cipher_modulus_spec()) - 1,
    {
        self.inner.cipher_modulus_minus_one()
    }

    /// Returns the secret-key distribution type.
    pub fn secret_key_type(&self) -> (r: RingSecretKeyType)
        ensures
            r == self.inner_spec().secret_key_type_spec(),
    {
        self.inner.secret_key_type()
    }

    /// Returns the noise standard deviation (IEEE-754 bit pattern).
    pub fn noise_standard_deviation(&self) -> (r: u64)
        ensures
            r == self.inner_spec().noise_standard_deviation_spec(),
    {
        self.inner.noise_standard_deviation()
    }
}

/// GLev / GGSW parameters.
#[derive(Copy, Debug)]
pub struct GlevParameters<T: FheUint> {
    common_size: GlevCommonSize,
    inner: GlweParametersInner<T>,
    basis: GadgetBasis<T>,
}

/// GGSW parameters share the GLev layout.
pub type GgswParameters<T> = GlevParameters<T>;

impl<T: FheUint> Clone for GlevParameters<T> {
    fn clone(&self) -> (r: Self)
        ensures
            r == *self,
    {
        *self
    }
}

impl<T: FheUint> GlevParameters<T> {
    #[verifier::type_invariant]
    closed spec fn inv(self) -> bool {
        self.common_size.decompose_length_spec() == self.basis.decompose_length_spec()
    }

    pub closed spec fn common_size_spec(self) -> GlevCommonSize {
        self.common_size
    }

    pub closed spec fn inner_spec(self) -> GlweParametersInner<T> {
        self.inner
    }

    pub closed spec fn basis_spec(self) -> GadgetBasis<T> {
        self.basis
    }

    /// Creates GLev/GGSW parameters from GLWE sizes, encryption parameters
    /// and a decomposition basis.
    pub fn new(glwe_common_size: GlweCommonSize, inner: GlweParametersInner<T>, basis: GadgetBasis<T>) -> (p: Self)
        requires
            glev_shape_ok(
                glwe_common_size.dimension_spec(),
                glwe_common_size.poly_length_spec(),
                basis.decompose_length_spec(),
            ),
        ensures
            p.common_size_spec().glwe_common_size_spec() == glwe_common_size,
            p.common_size_spec().decompose_length_spec() == basis.decompose_length_spec(),
            p.inner_spec() == inner,
            p.basis_spec() == basis,
    {
        let common_size = GlevCommonSize::new(glwe_common_size, basis.decompose_length());
        GlevParameters { common_size, inner, basis }
    }

    /// Creates GLev/GGSW parameters from matching GLWE parameters.
    pub fn with_glwe_params(glwe_params: &GlweParameters<T>, basis: GadgetBasis<T>) -> (p: Self)
        requires
            glev_shape_ok(
                glwe_params.common_size_spec().dimension_spec(),
                glwe_params.common_size_spec().poly_length_spec(),
                basis.decompose_length_spec(),
            ),
        ensures
            p.common_size_spec().glwe_common_size_spec() == glwe_params.common_size_spec(),
            p.inner_spec() == glwe_params.inner_spec(),
            p.basis_spec() == basis,
    {
        Self::new(glwe_params.common_size(), *glwe_params.inner(), basis)
    }

    /// Returns the underlying GLWE size constants.
    pub fn glwe_common_size(&self) -> (r: GlweCommonSize)
        ensures
            r == self.common_size_spec().glwe_common_size_spec(),
    {
        self.common_size.glwe_common_size()
    }

    /// Returns the parameters shared by GLWE and its gadget ciphertexts.
    pub fn inner(&self) -> (r: &GlweParametersInner<T>)
        ensures
            *r == self.inner_spec(),
    {
        &self.inner
    }

    /// Returns the pre-computed GLev/GGSW size constants.
    pub fn common_size(&self) -> (r: GlevCommonSize)
        ensures
            r == self.common_size_spec(),
    {
        self.common_size
    }

    /// Returns the GLWE dimension `k`.
    pub fn dimension(&self) -> (r: usize)
        ensures
            r == self.common_size_spec().glwe_common_size_spec().dimension_spec(),
    {
        self.common_size.dimension()
    }

    /// Returns the polynomial length `N`.
    pub fn poly_length(&self) -> (r: usize)
        ensures
            r == self.common_size_spec().glwe_common_size_spec().poly_length_spec(),
    {
        self.common_size.poly_length()
    }

    /// Returns the cipher modulus minus one.
    pub fn cipher_modulus_minus_one(&self) -> (r: T)
        ensures
            r.nat_value() == modulus_value(self.inner_spec().cipher_modulus_spec()) - 1,
    {
        self.inner.cipher_modulus_minus_one()
    }

    /// Returns the cipher modulus (`None` for the native modulus).
    pub fn cipher_modulus(&self) -> (r: Option<T>)
        ensures
            r == self.inner_spec().cipher_modulus_spec(),
    {
        self.inner.cipher_modulus()
    }

    /// Returns the secret-key distribution type.
    pub fn secret_key_type(&self) -> (r: RingSecretKeyType)
        ensures
            r == self.inner_spec().secret_key_type_spec(),
    {
        self.inner.secret_key_type()
    }

    /// Returns the noise standard deviation (IEEE-754 bit pattern).
    pub fn noise_standard_deviation(&self) -> (r: u64)
        ensures
            r == self.inner_spec().noise_standard_deviation_spec(),
    {
        self.inner.noise_standard_deviation()
    }

    /// Returns the decomposition basis.
    pub fn basis(&self) -> (r: &GadgetBasis<T>)
        ensures
            *r == self.basis_spec(),
    {
        &self.basis
    }

    /// Returns the decomposition length.
    pub fn decompose_length(&self) -> (r: usize)
        ensures
            r == self.common_size_spec().decompose_length_spec(),
            r == self.basis_spec().decompose_length_spec(),
    {
        proof {
            use_type_invariant(self);
        }
        self.common_size.decompose_length()
    }

    /// Returns the coefficient/NTT mask length `kN`.
    pub fn glwe_mid(&self) -> (r: usize)
        ensures
            r == self.common_size_spec().glwe_common_size_spec().glwe_mid_spec(),
    {
        self.common_size.glwe_mid()
    }

    /// Returns the number of values in one coefficient/NTT-domain GLWE ciphertext.
    pub fn glwe_len(&self) -> (r: usize)
        ensures
            r == self.common_size_spec().glwe_common_size_spec().glwe_len_spec(),
    {
        self.common_size.glwe_len()
    }

    /// Returns the number of values in one coefficient/NTT-domain GLev ciphertext.
    pub fn glev_len(&self) -> (r: usize)
        ensures
            r == self.common_size_spec().glev_len_spec(),
    {
        self.common_size.glev_len()
    }

    /// Returns the number of values in one coefficient/NTT-domain GGSW ciphertext.
    pub fn ggsw_len(&self) -> (r: usize)
        ensures
            r == self.common_size_spec().ggsw_len_spec(),
    {
        self.common_size.ggsw_len()
    }

    /// Returns the number of complex values in one Fourier-domain GLWE ciphertext.
    pub fn fourier_glwe_len(&self) -> (r: usize)
        ensures
            r == self.common_size_spec().glwe_common_size_spec().glwe_len_spec() / 2,
    {
        self.common_size.fourier_glwe_len()
    }

    /// Returns the Fourier mask length `kN/2`.
    pub fn fourier_glwe_mid(&self) -> (r: usize)
        ensures
            r == self.common_size_spec().glwe_common_size_spec().glwe_mid_spec() / 2,
    {
        self.common_size.fourier_glwe_mid()
    }

    /// Returns the number of complex values in one Fourier-domain GLev ciphertext.
    pub fn fourier_glev_len(&self) -> (r: usize)
        ensures
            r == self.common_size_spec().glev_len_spec() / 2,
    {
        self.common_size.fourier_glev_len()
    }

    /// Returns the number of complex values in one Fourier-domain GGSW ciphertext.
    pub fn fourier_ggsw_len(&self) -> (r: usize)
        ensures
            r == self.common_size_spec().ggsw_len_spec() / 2,
    {
        self.common_size.fourier_ggsw_len()
    }
}

/// Parameters for switching a GLWE ciphertext from an input secret key to an
/// output secret key: each input secret polynomial is encrypted as one GLev
/// ciphertext under the output key.
#[derive(Clone, Copy, Debug)]
pub struct GlweKeySwitchingParameters<T: FheUint> {
    input_dimension: usize,
    output: GlevParameters<T>,
}

impl<T: FheUint> GlweKeySwitchingParameters<T> {
    pub closed spec fn input_dimension_spec(self) -> nat {
        self.input_dimension as nat
    }

    pub closed spec fn output_spec(self) -> GlevParameters<T> {
        self.output
    }

    /// Creates GLWE key-switching parameters.
    pub fn new(input_dimension: usize, output: GlevParameters<T>) -> (p: Self)
        requires
            input_dimension > 0,
        ensures
            p.input_dimension_spec() == input_dimension,
            p.output_spec() == output,
    {
        GlweKeySwitchingParameters { input_dimension, output }
    }

    /// Returns the input GLWE dimension.
    pub fn input_dimension(&self) -> (r: usize)
        ensures
            r == self.input_dimension_spec(),
    {
        self.input_dimension
    }

    /// Returns the output GLWE dimension.
    pub fn output_dimension(&self) -> (r: usize)
        ensures
            r == self.output_spec().common_size_spec().glwe_common_size_spec().dimension_spec(),
    {
        self.output.dimension()
    }

    /// Returns the common polynomial length of the input and output keys.
    pub fn poly_length(&self) -> (r: usize)
        ensures
            r == self.output_spec().common_size_spec().glwe_common_size_spec().poly_length_spec(),
    {
        self.output.poly_length()
    }

    /// Returns the GLev parameters used for every key-switching entry.
    pub fn output(&self) -> (r: &GlevParameters<T>)
        ensures
            *r == self.output_spec(),
    {
        &self.output
    }

    /// Returns the coefficient/NTT-domain key length.
    pub fn key_len(&self) -> (r: usize)
        requires
            self.input_dimension_spec() * self.output_spec().common_size_spec().glev_len_spec()
                <= usize::MAX,
        ensures
            r == self.input_dimension_spec() * self.output_spec().common_size_spec().glev_len_spec(),
    {
        self.input_dimension * self.output.glev_len()
    }

    /// Returns the Fourier-domain key length.
    pub fn fourier_key_len(&self) -> (r: usize)
        requires
            self.input_dimension_spec() * (self.output_spec().common_size_spec().glev_len_spec() / 2)
                <= usize::MAX,
        ensures
            r == self.input_dimension_spec() * (self.output_spec().common_size_spec().glev_len_spec()
                / 2),
    {
        self.input_dimension * self.output.fourier_glev_len()
    }
}

} // verus!
