//! Parameters for GLWE-based TFHE and their validation.
use crate::parameter::glwe::{
    option_word_eq, GgswParameters, GlweKeySwitchingParameters, GlweParameters,
    GlweParametersInner,
};
use crate::parameter::lwe::LweParameters;
use crate::secret_key_type::{f64_bits_eq, ring_key_type_eq, LweSecretKeyType, RingSecretKeyType};
use crate::word::FheUint;
use vstd::prelude::*;

verus! {

/// Execution order of programmable bootstrapping and key switching.
#[derive(Debug, Clone, Copy, PartialEq, Eq, Structural)]
pub enum PbsOrder {
    /// Blind rotation is followed by a GLWE key switch and compact sample
    /// extraction back to the small LWE key.
    BootstrapKeyswitch,
    /// A GLWE key switch and compact sample extraction first produce a small
    /// LWE ciphertext, which is then bootstrapped.
    KeyswitchBootstrap,
}

/// An invalid combination of GLWE-based TFHE parameters.
#[derive(Debug, Clone, PartialEq, Eq, Structural)]
pub enum TfheParameterError {
    /// The functional bootstrapping key requires a binary input LWE secret key.
    InputLweSecretKeyMustBeBinary,
    /// The LWE ciphertext and GLWE accumulator use different plaintext spaces.
    PlainModulusMismatch,
    /// The GGSW parameters were not derived from the accumulator GLWE parameters.
    BootstrappingGlweParametersMismatch,
    /// The GGSW decomposition basis was created for a different GLWE modulus.
    BootstrappingBasisModulusMismatch,
    /// The small LWE key does not fit in the main GLWE key capacity `kN`.
    SmallLweDimensionExceedsGlweCapacity {
        /// Configured small LWE dimension.
        small_lwe_dimension: usize,
        /// Main GLWE secret-key capacity `kN`.
        capacity: usize,
    },
    /// GLWE key switching and compact extraction require matching small-LWE
    /// and GLWE ciphertext moduli.
    CipherModulusMismatch,
    /// The GLWE key-switching key must start from the main GLWE key.
    GlweKeySwitchingInputDimensionMismatch {
        /// Main GLWE dimension.
        expected: usize,
        /// Configured key-switch input dimension.
        actual: usize,
    },
    /// The GLWE key-switching output dimension must be the smallest dimension
    /// capable of containing the padded small LWE key.
    GlweKeySwitchingOutputDimensionMismatch {
        /// Derived padded GLWE dimension.
        expected: usize,
        /// Configured output GLWE dimension.
        actual: usize,
    },
    /// The input and output GLWE keys must use the same polynomial length.
    GlweKeySwitchingPolynomialLengthMismatch {
        /// Main GLWE polynomial length.
        expected: usize,
        /// Configured output polynomial length.
        actual: usize,
    },
    /// GLWE key switching must use the main GLWE ciphertext modulus.
    GlweKeySwitchingCipherModulusMismatch,
    /// The output GLWE key is derived from the binary small LWE key.
    GlweKeySwitchingOutputSecretKeyMustBeBinary,
    /// The GLWE key-switch decomposition basis uses a different modulus.
    GlweKeySwitchingBasisModulusMismatch,
}

/// `ceil(n / d)`.
pub open spec fn div_ceil_spec(n: nat, d: nat) -> nat {
    ((n + d - 1) / (d as int)) as nat
}

/// Returns `ceil(n / d)`.
pub fn div_ceil(n: usize, d: usize) -> (r: usize)
    requires
        d > 0,
    ensures
        r == div_ceil_spec(n as nat, d as nat),
{
    let q = n / d;
    let rem = n % d;
    proof {
        vstd::arithmetic::div_mod::lemma_fundamental_div_mod(n as int, d as int);
        vstd::arithmetic::div_mod::lemma_mod_bound(n as int, d as int);
        vstd::arithmetic::mul::lemma_mul_is_commutative(d as int, q as int);
    }
    if rem == 0 {
        proof {
            vstd::arithmetic::div_mod::lemma_fundamental_div_mod_converse(
                n + d - 1,
                d as int,
                q as int,
                d - 1,
            );
        }
        q
    } else {
        proof {
            assert(q < usize::MAX) by (nonlinear_arith)
                requires
                    n == d * q + rem,
                    rem > 0,
                    rem < d,
                    n <= usize::MAX,
            ;
            assert((q + 1) * d == q * d + d) by (nonlinear_arith);
            vstd::arithmetic::div_mod::lemma_fundamental_div_mod_converse(
                n + d - 1,
                d as int,
                q + 1,
                rem - 1,
            );
        }
        q + 1
    }
}

/// Two encryption parameter sets agree on modulus, key distribution and noise.
pub open spec fn inner_matches<T: FheUint>(a: GlweParametersInner<T>, b: GlweParametersInner<T>) -> bool {
    &&& a.cipher_modulus_spec() == b.cipher_modulus_spec()
    &&& ring_key_type_eq(a.secret_key_type_spec(), b.secret_key_type_spec())
    &&& f64_bits_eq(a.noise_standard_deviation_spec(), b.noise_standard_deviation_spec())
}

/// The first failed check, in order, of a TFHE parameter combination, or
/// `None` when the combination is valid.
pub open spec fn tfhe_parameter_error<T: FheUint>(
    small_lwe: LweParameters<T>,
    glwe: GlweParameters<T>,
    bootstrapping: GgswParameters<T>,
    ks: GlweKeySwitchingParameters<T>,
) -> Option<TfheParameterError> {
    let n = glwe.common_size_spec().poly_length_spec();
    let capacity = glwe.common_size_spec().glwe_mid_spec();
    let ks_out = ks.output_spec();
    let expected_output_dimension = div_ceil_spec(small_lwe.dimension_spec(), n);
    if small_lwe.secret_key_type_spec() != LweSecretKeyType::Binary {
        Some(TfheParameterError::InputLweSecretKeyMustBeBinary)
    } else if small_lwe.plaintext_codec_spec().t_spec() != glwe.plaintext_codec_spec().t_spec() {
        Some(TfheParameterError::PlainModulusMismatch)
    } else if glwe.common_size_spec() != bootstrapping.common_size_spec().glwe_common_size_spec()
        || !inner_matches(glwe.inner_spec(), bootstrapping.inner_spec()) {
        Some(TfheParameterError::BootstrappingGlweParametersMismatch)
    } else if bootstrapping.basis_spec().modulus_spec()
        != bootstrapping.inner_spec().cipher_modulus_spec() {
        Some(TfheParameterError::BootstrappingBasisModulusMismatch)
    } else if small_lwe.dimension_spec() > capacity {
        Some(
            TfheParameterError::SmallLweDimensionExceedsGlweCapacity {
                small_lwe_dimension: small_lwe.dimension_spec() as usize,
                capacity: capacity as usize,
            },
        )
    } else if small_lwe.cipher_modulus_spec() != glwe.inner_spec().cipher_modulus_spec() {
        Some(TfheParameterError::CipherModulusMismatch)
    } else if ks.input_dimension_spec() != glwe.common_size_spec().dimension_spec() {
        Some(
            TfheParameterError::GlweKeySwitchingInputDimensionMismatch {
                expected: glwe.common_size_spec().dimension_spec() as usize,
                actual: ks.input_dimension_spec() as usize,
            },
        )
    } else if ks_out.common_size_spec().glwe_common_size_spec().dimension_spec()
        != expected_output_dimension {
        Some(
            TfheParameterError::GlweKeySwitchingOutputDimensionMismatch {
                expected: expected_output_dimension as usize,
                actual: ks_out.common_size_spec().glwe_common_size_spec().dimension_spec() as usize,
            },
        )
    } else if ks_out.common_size_spec().glwe_common_size_spec().poly_length_spec() != n {
        Some(
            TfheParameterError::GlweKeySwitchingPolynomialLengthMismatch {
                expected: n as usize,
                actual: ks_out.common_size_spec().glwe_common_size_spec().poly_length_spec() as usize,
            },
        )
    } else if ks_out.inner_spec().cipher_modulus_spec() != glwe.inner_spec().cipher_modulus_spec() {
        Some(TfheParameterError::GlweKeySwitchingCipherModulusMismatch)
    } else if ks_out.inner_spec().secret_key_type_spec() != RingSecretKeyType::Binary {
        Some(TfheParameterError::GlweKeySwitchingOutputSecretKeyMustBeBinary)
    } else if ks_out.basis_spec().modulus_spec() != glwe.inner_spec().cipher_modulus_spec() {
        Some(TfheParameterError::GlweKeySwitchingBasisModulusMismatch)
    } else {
        None
    }
}

/// The bootstrapping GGSW parameters were made from the accumulator GLWE
/// parameters: same GLWE shape, ciphertext modulus, secret-key distribution
/// and noise deviation (compared as doubles).
pub open spec fn bootstrapping_made_from<T: FheUint>(
    glwe: GlweParameters<T>,
    bootstrapping: GgswParameters<T>,
) -> bool {
    &&& glwe.common_size_spec() == bootstrapping.common_size_spec().glwe_common_size_spec()
    &&& glwe.inner_spec().cipher_modulus_spec() == bootstrapping.inner_spec().cipher_modulus_spec()
    &&& ring_key_type_eq(
        glwe.inner_spec().secret_key_type_spec(),
        bootstrapping.inner_spec().secret_key_type_spec(),
    )
    &&& f64_bits_eq(
        glwe.inner_spec().noise_standard_deviation_spec(),
        bootstrapping.inner_spec().noise_standard_deviation_spec(),
    )
}

/// Law: a parameter set is accepted only when its bootstrapping parameters
/// were made from its accumulator parameters; once the input key is binary
/// and the plaintext moduli agree, any difference in shape, ciphertext
/// modulus, secret-key distribution or noise deviation is reported as
/// `BootstrappingGlweParametersMismatch`.
pub proof fn lemma_bootstrapping_parameters_must_match<T: FheUint>(
    small_lwe: LweParameters<T>,
    glwe: GlweParameters<T>,
    bootstrapping: GgswParameters<T>,
    ks: GlweKeySwitchingParameters<T>,
)
    ensures
        tfhe_parameter_error(small_lwe, glwe, bootstrapping, ks) is None ==> bootstrapping_made_from(
            glwe,
            bootstrapping,
        ),
        small_lwe.secret_key_type_spec() == LweSecretKeyType::Binary
            && small_lwe.plaintext_codec_spec().t_spec() == glwe.plaintext_codec_spec().t_spec()
            && !bootstrapping_made_from(glwe, bootstrapping) ==> tfhe_parameter_error(
            small_lwe,
            glwe,
            bootstrapping,
            ks,
        ) == Some(TfheParameterError::BootstrappingGlweParametersMismatch),
{
}

/// Law: client ciphertexts have the small LWE dimension `n` when
/// bootstrapping comes first, and the GLWE secret-key length `kN` when key
/// switching comes first.
pub proof fn lemma_client_ciphertext_dimension<T: FheUint>(p: TfheParameters<T>)
    ensures
        p.pbs_order_spec() == PbsOrder::BootstrapKeyswitch ==> p.ciphertext_lwe_dimension_spec()
            == p.small_lwe_spec().dimension_spec(),
        p.pbs_order_spec() == PbsOrder::KeyswitchBootstrap ==> p.ciphertext_lwe_dimension_spec()
            == p.glwe_spec().common_size_spec().dimension_spec()
            * p.glwe_spec().common_size_spec().poly_length_spec(),
{
}

/// Mathematical parameters for GLWE-based TFHE.
#[derive(Debug)]
pub struct TfheParameters<T: FheUint> {
    small_lwe: LweParameters<T>,
    glwe: GlweParameters<T>,
    bootstrapping: GgswParameters<T>,
    glwe_key_switching: GlweKeySwitchingParameters<T>,
    pbs_order: PbsOrder,
}

/// Component parameter objects owned by a [`TfheParameters`] value.
pub type TfheParameterParts<T> = (
    LweParameters<T>,
    GlweParameters<T>,
    GgswParameters<T>,
    GlweKeySwitchingParameters<T>,
    PbsOrder,
);

impl<T: FheUint> TfheParameters<T> {
    #[verifier::type_invariant]
    closed spec fn inv(self) -> bool {
        tfhe_parameter_error(self.small_lwe, self.glwe, self.bootstrapping, self.glwe_key_switching)
            is None
    }

    pub closed spec fn small_lwe_spec(self) -> LweParameters<T> {
        self.small_lwe
    }

    pub closed spec fn glwe_spec(self) -> GlweParameters<T> {
        self.glwe
    }

    pub closed spec fn bootstrapping_spec(self) -> GgswParameters<T> {
        self.bootstrapping
    }

    pub closed spec fn glwe_key_switching_spec(self) -> GlweKeySwitchingParameters<T> {
        self.glwe_key_switching
    }

    pub closed spec fn pbs_order_spec(self) -> PbsOrder {
        self.pbs_order
    }

    /// The LWE dimension of ciphertexts exposed by the client API.
    pub open spec fn ciphertext_lwe_dimension_spec(self) -> nat {
        match self.pbs_order_spec() {
            PbsOrder::BootstrapKeyswitch => self.small_lwe_spec().dimension_spec(),
            PbsOrder::KeyswitchBootstrap => self.glwe_spec().common_size_spec().glwe_mid_spec(),
        }
    }

    /// The parameters of the ciphertexts exposed by the client API:
    /// their modulus and plaintext codec.
    pub open spec fn valid(self) -> bool {
        tfhe_parameter_error(
            self.small_lwe_spec(),
            self.glwe_spec(),
            self.bootstrapping_spec(),
            self.glwe_key_switching_spec(),
        ) is None
    }

    /// Creates and validates a GLWE-based TFHE parameter set.
    ///
    /// Returns the first failed check, in the order of
    /// [`tfhe_parameter_error`].
    pub fn try_new(
        small_lwe: LweParameters<T>,
        glwe: GlweParameters<T>,
        bootstrapping: GgswParameters<T>,
        glwe_key_switching: GlweKeySwitchingParameters<T>,
        pbs_order: PbsOrder,
    ) -> (r: Result<Self, TfheParameterError>)
        ensures
            match tfhe_parameter_error(small_lwe, glwe, bootstrapping, glwe_key_switching) {
                Some(e) => r == Err::<Self, TfheParameterError>(e),
                None => r matches Ok(p) && p.small_lwe_spec() == small_lwe && p.glwe_spec() == glwe
                    && p.bootstrapping_spec() == bootstrapping && p.glwe_key_switching_spec()
                    == glwe_key_switching && p.pbs_order_spec() == pbs_order,
            },
            r is Ok ==> bootstrapping_made_from(glwe, bootstrapping),
            small_lwe.secret_key_type_spec() == LweSecretKeyType::Binary
                && small_lwe.plaintext_codec_spec().t_spec() == glwe.plaintext_codec_spec().t_spec()
                && !bootstrapping_made_from(glwe, bootstrapping) ==> r == Err::<
                Self,
                TfheParameterError,
            >(TfheParameterError::BootstrappingGlweParametersMismatch),
    {
        proof {
            lemma_bootstrapping_parameters_must_match(small_lwe, glwe, bootstrapping, glwe_key_switching);
        }
        match Self::validate_common(&small_lwe, &glwe, &bootstrapping) {
            Err(e) => {
                return Err(e);
            },
            Ok(()) => {},
        }
        let capacity = glwe.secret_key_len();
        if small_lwe.dimension() > capacity {
            return Err(
                TfheParameterError::SmallLweDimensionExceedsGlweCapacity {
                    small_lwe_dimension: small_lwe.dimension(),
                    capacity,
                },
            );
        }
        if !option_word_eq(small_lwe.cipher_modulus(), glwe.cipher_modulus()) {
            return Err(TfheParameterError::CipherModulusMismatch);
        }
        if glwe_key_switching.input_dimension() != glwe.dimension() {
            return Err(
                TfheParameterError::GlweKeySwitchingInputDimensionMismatch {
                    expected: glwe.dimension(),
                    actual: glwe_key_switching.input_dimension(),
                },
            );
        }
        let expected_output_dimension = div_ceil(small_lwe.dimension(), glwe.poly_length());
        if glwe_key_switching.output_dimension() != expected_output_dimension {
            return Err(
                TfheParameterError::GlweKeySwitchingOutputDimensionMismatch {
                    expected: expected_output_dimension,
                    actual: glwe_key_switching.output_dimension(),
                },
            );
        }
        if glwe_key_switching.poly_length() != glwe.poly_length() {
            return Err(
                TfheParameterError::GlweKeySwitchingPolynomialLengthMismatch {
                    expected: glwe.poly_length(),
                    actual: glwe_key_switching.poly_length(),
                },
            );
        }
        if !option_word_eq(glwe_key_switching.output().cipher_modulus(), glwe.cipher_modulus()) {
            return Err(TfheParameterError::GlweKeySwitchingCipherModulusMismatch);
        }
        if glwe_key_switching.output().secret_key_type() != RingSecretKeyType::Binary {
            return Err(TfheParameterError::GlweKeySwitchingOutputSecretKeyMustBeBinary);
        }
        if !option_word_eq(glwe_key_switching.output().basis().modulus(), glwe.cipher_modulus()) {
            return Err(TfheParameterError::GlweKeySwitchingBasisModulusMismatch);
        }
        Ok(TfheParameters { small_lwe, glwe, bootstrapping, glwe_key_switching, pbs_order })
    }

    /// Creates bootstrap-then-key-switch parameters from an explicit GLWE
    /// key-switching parameter set.
    pub fn new_bootstrap_keyswitch(
        small_lwe: LweParameters<T>,
        glwe: GlweParameters<T>,
        bootstrapping: GgswParameters<T>,
        glwe_key_switching: GlweKeySwitchingParameters<T>,
    ) -> (r: Result<Self, TfheParameterError>)
        ensures
            match tfhe_parameter_error(small_lwe, glwe, bootstrapping, glwe_key_switching) {
                Some(e) => r == Err::<Self, TfheParameterError>(e),
                None => r matches Ok(p) && p.small_lwe_spec() == small_lwe && p.glwe_spec() == glwe
                    && p.bootstrapping_spec() == bootstrapping && p.glwe_key_switching_spec()
                    == glwe_key_switching && p.pbs_order_spec() == PbsOrder::BootstrapKeyswitch,
            },
    {
        Self::try_new(small_lwe, glwe, bootstrapping, glwe_key_switching, PbsOrder::BootstrapKeyswitch)
    }

    /// Creates key-switch-then-bootstrap parameters from an explicit GLWE
    /// key-switching parameter set.
    pub fn new_keyswitch_bootstrap(
        small_lwe: LweParameters<T>,
        glwe: GlweParameters<T>,
        bootstrapping: GgswParameters<T>,
        glwe_key_switching: GlweKeySwitchingParameters<T>,
    ) -> (r: Result<Self, TfheParameterError>)
        ensures
            match tfhe_parameter_error(small_lwe, glwe, bootstrapping, glwe_key_switching) {
                Some(e) => r == Err::<Self, TfheParameterError>(e),
                None => r matches Ok(p) && p.small_lwe_spec() == small_lwe && p.glwe_spec() == glwe
                    && p.bootstrapping_spec() == bootstrapping && p.glwe_key_switching_spec()
                    == glwe_key_switching && p.pbs_order_spec() == PbsOrder::KeyswitchBootstrap,
            },
    {
        Self::try_new(small_lwe, glwe, bootstrapping, glwe_key_switching, PbsOrder::KeyswitchBootstrap)
    }

    fn validate_common(
        small_lwe: &LweParameters<T>,
        glwe: &GlweParameters<T>,
        bootstrapping: &GgswParameters<T>,
    ) -> (r: Result<(), TfheParameterError>)
        ensures
            r is Err <==> (small_lwe.secret_key_type_spec() != LweSecretKeyType::Binary
                || small_lwe.plaintext_codec_spec().t_spec() != glwe.plaintext_codec_spec().t_spec()
                || glwe.common_size_spec() != bootstrapping.common_size_spec().glwe_common_size_spec()
                || !inner_matches(glwe.inner_spec(), bootstrapping.inner_spec())
                || bootstrapping.basis_spec().modulus_spec()
                != bootstrapping.inner_spec().cipher_modulus_spec()),
            r matches Err(e) ==> Some(e) == tfhe_parameter_error(
                *small_lwe,
                *glwe,
                *bootstrapping,
                arbitrary(),
            ),
    {
        if small_lwe.secret_key_type() != LweSecretKeyType::Binary {
            return Err(TfheParameterError::InputLweSecretKeyMustBeBinary);
        }
        let lwe_t = small_lwe.plain_modulus_value();
        let glwe_t = glwe.plain_modulus_value();
        if lwe_t.to_u128() != glwe_t.to_u128() {
            return Err(TfheParameterError::PlainModulusMismatch);
        }
        if glwe.common_size() != bootstrapping.glwe_common_size() || !glwe.inner().same_as(
            bootstrapping.inner(),
        ) {
            return Err(TfheParameterError::BootstrappingGlweParametersMismatch);
        }
        if !option_word_eq(bootstrapping.basis().modulus(), bootstrapping.cipher_modulus()) {
            return Err(TfheParameterError::BootstrappingBasisModulusMismatch);
        }
        Ok(())
    }

    /// Returns the small-LWE parameters used by the bootstrapping key.
    pub fn small_lwe(&self) -> (r: &LweParameters<T>)
        ensures
            *r == self.small_lwe_spec(),
    {
        &self.small_lwe
    }

    /// Returns the GGSW parameters used by programmable bootstrapping.
    pub fn bootstrapping(&self) -> (r: &GgswParameters<T>)
        ensures
            *r == self.bootstrapping_spec(),
    {
        &self.bootstrapping
    }

    /// Returns the GLWE accumulator parameters.
    pub fn glwe(&self) -> (r: &GlweParameters<T>)
        ensures
            *r == self.glwe_spec(),
    {
        &self.glwe
    }

    /// Returns the GLWE key-switching parameters shared by both PBS orders.
    pub fn glwe_key_switching(&self) -> (r: &GlweKeySwitchingParameters<T>)
        ensures
            *r == self.glwe_key_switching_spec(),
    {
        &self.glwe_key_switching
    }

    /// Returns the selected PBS execution order.
    pub fn pbs_order(&self) -> (r: PbsOrder)
        ensures
            r == self.pbs_order_spec(),
            self.valid(),
    {
        proof {
            use_type_invariant(self);
        }
        self.pbs_order
    }

    /// Returns the dimension of ciphertexts exposed by the client API.
    pub fn ciphertext_lwe_dimension(&self) -> (r: usize)
        ensures
            r == self.ciphertext_lwe_dimension_spec(),
            self.pbs_order_spec() == PbsOrder::BootstrapKeyswitch ==> r
                == self.small_lwe_spec().dimension_spec(),
            self.pbs_order_spec() == PbsOrder::KeyswitchBootstrap ==> r
                == self.glwe_spec().common_size_spec().dimension_spec()
                * self.glwe_spec().common_size_spec().poly_length_spec(),
    {
        proof {
            lemma_client_ciphertext_dimension(*self);
        }
        match self.pbs_order() {
            PbsOrder::BootstrapKeyswitch => self.small_lwe.dimension(),
            PbsOrder::KeyswitchBootstrap => self.glwe.secret_key_len(),
        }
    }

    /// Returns the LWE dimension consumed by blind rotation.
    pub fn blind_rotation_input_dimension(&self) -> (r: usize)
        ensures
            r == self.small_lwe_spec().dimension_spec(),
    {
        self.small_lwe.dimension()
    }

    /// Returns the plaintext modulus shared by LWE ciphertexts and the GLWE
    /// accumulator.
    pub fn plain_modulus_value(&self) -> (r: T)
        ensures
            r.nat_value() == self.small_lwe_spec().plaintext_codec_spec().t_spec(),
            r.nat_value() == self.glwe_spec().plaintext_codec_spec().t_spec(),
    {
        proof {
            use_type_invariant(self);
        }
        self.small_lwe.plain_modulus_value()
    }

    /// Decomposes this parameter set into its component parameter objects.
    pub fn into_parts(self) -> (r: TfheParameterParts<T>)
        ensures
            r == (
                self.small_lwe_spec(),
                self.glwe_spec(),
                self.bootstrapping_spec(),
                self.glwe_key_switching_spec(),
                self.pbs_order_spec(),
            ),
    {
        (self.small_lwe, self.glwe, self.bootstrapping, self.glwe_key_switching, self.pbs_order)
    }
}

} // verus!
