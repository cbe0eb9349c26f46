//! Client-side secret keys of GLWE-based TFHE and their compatibility with
//! a parameter set.
use crate::parameter::common_size::GlweCommonSize;
use crate::parameter::tfhe::{PbsOrder, TfheParameters};
use crate::secret_key_type::{ring_key_type_eq, LweSecretKeyType, RingSecretKeyType, SecretCoefficient};
use crate::word::FheUint;
use vstd::prelude::*;

verus! {

/// An LWE secret key: signed coefficients and their distribution.
#[derive(Debug)]
pub struct LweSecretKey<T: FheUint> {
    key: Vec<SecretCoefficient<T>>,
    distr: LweSecretKeyType,
}

impl<T: FheUint> LweSecretKey<T> {
    pub closed spec fn key_spec(&self) -> Seq<SecretCoefficient<T>> {
        self.key@
    }

    pub closed spec fn distr_spec(&self) -> LweSecretKeyType {
        self.distr
    }

    /// Creates an LWE secret key from its coefficients.
    pub fn new(key: Vec<SecretCoefficient<T>>, distr: LweSecretKeyType) -> (k: Self)
        ensures
            k.key_spec() == key@,
            k.distr_spec() == distr,
    {
        LweSecretKey { key, distr }
    }

    /// Returns the LWE dimension.
    pub fn dimension(&self) -> (r: usize)
        ensures
            r == self.key_spec().len(),
    {
        self.key.len()
    }

    /// Returns the secret-key distribution.
    pub fn distr(&self) -> (r: LweSecretKeyType)
        ensures
            r == self.distr_spec(),
    {
        self.distr
    }

    /// Returns the secret-key coefficients.
    pub fn as_slice(&self) -> (r: &[SecretCoefficient<T>])
        ensures
            r@ == self.key_spec(),
    {
        self.key.as_slice()
    }
}

/// A coefficient-domain GLWE secret key of `k` polynomials of length `N`.
#[derive(Debug)]
pub struct GlweSecretKey<T: FheUint> {
    key: Vec<SecretCoefficient<T>>,
    glwe_size: GlweCommonSize,
    distr: RingSecretKeyType,
}

impl<T: FheUint> GlweSecretKey<T> {
    #[verifier::type_invariant]
    closed spec fn inv(self) -> bool {
        self.key@.len() == self.glwe_size.glwe_mid_spec()
    }

    pub closed spec fn key_spec(&self) -> Seq<SecretCoefficient<T>> {
        self.key@
    }

    pub closed spec fn glwe_size_spec(&self) -> GlweCommonSize {
        self.glwe_size
    }

    pub closed spec fn distr_spec(&self) -> RingSecretKeyType {
        self.distr
    }

    /// Creates a GLWE secret key; `key` holds the `kN` coefficients.
    pub fn new(key: Vec<SecretCoefficient<T>>, glwe_size: GlweCommonSize, distr: RingSecretKeyType) -> (k: Self)
        requires
            key@.len() == glwe_size.glwe_mid_spec(),
        ensures
            k.key_spec() == key@,
            k.glwe_size_spec() == glwe_size,
            k.distr_spec() == distr,
    {
        GlweSecretKey { key, glwe_size, distr }
    }

    /// Returns the GLWE layout of this key.
    pub fn glwe_size(&self) -> (r: GlweCommonSize)
        ensures
            r == self.glwe_size_spec(),
    {
        self.glwe_size
    }

    /// Returns the polynomial length `N`.
    pub fn poly_length(&self) -> (r: usize)
        ensures
            r == self.glwe_size_spec().poly_length_spec(),
    {
        self.glwe_size.poly_length()
    }

    /// Returns the GLWE dimension `k`.
    pub fn dimension(&self) -> (r: usize)
        ensures
            r == self.glwe_size_spec().dimension_spec(),
    {
        self.glwe_size.dimension()
    }

    /// Returns the coefficient distribution.
    pub fn distr(&self) -> (r: RingSecretKeyType)
        ensures
            r == self.distr_spec(),
    {
        self.distr
    }

    /// Returns all coefficient-domain secret-key values.
    pub fn as_slice(&self) -> (r: &[SecretCoefficient<T>])
        ensures
            r@ == self.key_spec(),
            r@.len() == self.glwe_size_spec().glwe_mid_spec(),
    {
        proof {
            use_type_invariant(self);
        }
        self.key.as_slice()
    }

    /// The secret polynomials, in order: `N` coefficients each.
    pub fn iter(&self) -> (r: Vec<&[SecretCoefficient<T>]>)
        ensures
            r@.len() == self.glwe_size_spec().dimension_spec(),
            forall|p: int|
                0 <= p < r@.len() ==> (#[trigger] r@[p])@ == self.key_spec().subrange(
                    p * self.glwe_size_spec().poly_length_spec(),
                    (p + 1) * self.glwe_size_spec().poly_length_spec(),
                ),
    {
        proof {
            use_type_invariant(self);
        }
        let n = self.glwe_size.poly_length();
        let k = self.glwe_size.dimension();
        let total = self.glwe_size.glwe_mid();
        let mut polys: Vec<&[SecretCoefficient<T>]> = Vec::new();
        let mut p: usize = 0;
        while p < k
            invariant
                n == self.glwe_size_spec().poly_length_spec(),
                k == self.glwe_size_spec().dimension_spec(),
                self.key@.len() == k * n,
                total == k * n,
                p <= k,
                polys@.len() == p,
                forall|q: int|
                    0 <= q < p ==> (#[trigger] polys@[q])@ == self.key@.subrange(q * n, (q + 1) * n),
            decreases k - p,
        {
            proof {
                assert((p + 1) * n <= k * n) by (nonlinear_arith)
                    requires
                        p < k,
                ;
                assert((p + 1) * n == p * n + n) by (nonlinear_arith);
            }
            let start = p * n;
            polys.push(&self.key[start..start + n]);
            p = p + 1;
        }
        polys
    }
}

/// Borrowed coefficients of the LWE secret key used by external TFHE
/// ciphertexts.
pub struct LweSecretKeyRef<'a, T: FheUint>(&'a [SecretCoefficient<T>]);

impl<'a, T: FheUint> LweSecretKeyRef<'a, T> {
    pub closed spec fn key_spec(&self) -> Seq<SecretCoefficient<T>> {
        self.0@
    }

    /// Returns the LWE dimension.
    pub fn dimension(&self) -> (r: usize)
        ensures
            r == self.key_spec().len(),
    {
        self.0.len()
    }

    /// Returns the secret-key coefficients.
    pub fn as_slice(&self) -> (r: &'a [SecretCoefficient<T>])
        ensures
            r@ == self.key_spec(),
    {
        self.0
    }
}

/// An incompatibility between secret keys and TFHE parameters.
#[derive(Debug, Clone, PartialEq, Eq, Structural)]
pub enum TfheKeyError {
    /// The client key was created for a different PBS order.
    PbsOrderMismatch {
        /// PBS order required by the parameters.
        expected: PbsOrder,
        /// PBS order associated with the client key.
        actual: PbsOrder,
    },
    /// The LWE secret key has the wrong dimension.
    LweDimensionMismatch {
        /// Dimension required by the parameters.
        expected: usize,
        /// Dimension found in the key.
        actual: usize,
    },
    /// The LWE secret-key distribution does not match the parameters.
    LweSecretKeyDistributionMismatch,
    /// The GLWE secret key has the wrong dimension.
    GlweDimensionMismatch {
        /// Dimension required by the parameters.
        expected: usize,
        /// Dimension found in the key.
        actual: usize,
    },
    /// The GLWE secret key has the wrong polynomial length.
    PolynomialLengthMismatch {
        /// Polynomial length required by the parameters.
        expected: usize,
        /// Polynomial length found in the key.
        actual: usize,
    },
    /// The GLWE secret-key distribution does not match the parameters.
    GlweSecretKeyDistributionMismatch,
}

/// The complete client-side secret material for GLWE-based TFHE.
#[derive(Debug)]
pub struct ClientKey<T: FheUint> {
    small_lwe_secret_key: LweSecretKey<T>,
    glwe_secret_key: GlweSecretKey<T>,
    pbs_order: PbsOrder,
}

impl<T: FheUint> ClientKey<T> {
    pub closed spec fn small_lwe_secret_key_spec(&self) -> &LweSecretKey<T> {
        &self.small_lwe_secret_key
    }

    pub closed spec fn glwe_secret_key_spec(&self) -> &GlweSecretKey<T> {
        &self.glwe_secret_key
    }

    pub closed spec fn pbs_order_spec(&self) -> PbsOrder {
        self.pbs_order
    }

    /// The coefficients of the secret key of external LWE ciphertexts: the
    /// small-LWE key after bootstrapping, the GLWE key coefficients before.
    pub open spec fn lwe_secret_key_spec(&self) -> Seq<SecretCoefficient<T>> {
        match self.pbs_order_spec() {
            PbsOrder::BootstrapKeyswitch => self.small_lwe_secret_key_spec().key_spec(),
            PbsOrder::KeyswitchBootstrap => self.glwe_secret_key_spec().key_spec(),
        }
    }

    /// The first failed compatibility check against `parameters`, or `None`.
    pub open spec fn compatibility_error(&self, parameters: &TfheParameters<T>) -> Option<TfheKeyError> {
        let lwe = self.small_lwe_secret_key_spec();
        let glwe = self.glwe_secret_key_spec();
        let p_lwe = parameters.small_lwe_spec();
        let p_glwe = parameters.glwe_spec();
        if self.pbs_order_spec() != parameters.pbs_order_spec() {
            Some(
                TfheKeyError::PbsOrderMismatch {
                    expected: parameters.pbs_order_spec(),
                    actual: self.pbs_order_spec(),
                },
            )
        } else if lwe.key_spec().len() != p_lwe.dimension_spec() {
            Some(
                TfheKeyError::LweDimensionMismatch {
                    expected: p_lwe.dimension_spec() as usize,
                    actual: lwe.key_spec().len() as usize,
                },
            )
        } else if lwe.distr_spec() != p_lwe.secret_key_type_spec() {
            Some(TfheKeyError::LweSecretKeyDistributionMismatch)
        } else if glwe.glwe_size_spec().dimension_spec() != p_glwe.common_size_spec().dimension_spec() {
            Some(
                TfheKeyError::GlweDimensionMismatch {
                    expected: p_glwe.common_size_spec().dimension_spec() as usize,
                    actual: glwe.glwe_size_spec().dimension_spec() as usize,
                },
            )
        } else if glwe.glwe_size_spec().poly_length_spec() != p_glwe.common_size_spec().poly_length_spec() {
            Some(
                TfheKeyError::PolynomialLengthMismatch {
                    expected: p_glwe.common_size_spec().poly_length_spec() as usize,
                    actual: glwe.glwe_size_spec().poly_length_spec() as usize,
                },
            )
        } else if !ring_key_type_eq(glwe.distr_spec(), p_glwe.inner_spec().secret_key_type_spec()) {
            Some(TfheKeyError::GlweSecretKeyDistributionMismatch)
        } else {
            None
        }
    }

    /// Creates a client key from its LWE and coefficient-domain GLWE keys.
    pub fn new(small_lwe_secret_key: LweSecretKey<T>, glwe_secret_key: GlweSecretKey<T>, pbs_order: PbsOrder) -> (k: Self)
        ensures
            *k.small_lwe_secret_key_spec() == small_lwe_secret_key,
            *k.glwe_secret_key_spec() == glwe_secret_key,
            k.pbs_order_spec() == pbs_order,
    {
        ClientKey { small_lwe_secret_key, glwe_secret_key, pbs_order }
    }

    /// Returns the secret key used by external LWE ciphertexts.
    pub fn lwe_secret_key(&self) -> (r: LweSecretKeyRef<'_, T>)
        ensures
            r.key_spec() == self.lwe_secret_key_spec(),
    {
        match self.pbs_order {
            PbsOrder::BootstrapKeyswitch => LweSecretKeyRef(self.small_lwe_secret_key.as_slice()),
            PbsOrder::KeyswitchBootstrap => LweSecretKeyRef(self.glwe_secret_key.as_slice()),
        }
    }

    /// Returns the small-LWE secret key used by the bootstrapping key.
    pub fn small_lwe_secret_key(&self) -> (r: &LweSecretKey<T>)
        ensures
            r == self.small_lwe_secret_key_spec(),
    {
        &self.small_lwe_secret_key
    }

    /// Returns the coefficient-domain GLWE secret key.
    pub fn glwe_secret_key(&self) -> (r: &GlweSecretKey<T>)
        ensures
            r == self.glwe_secret_key_spec(),
    {
        &self.glwe_secret_key
    }

    /// Returns the PBS order that determines the external LWE key.
    pub fn pbs_order(&self) -> (r: PbsOrder)
        ensures
            r == self.pbs_order_spec(),
    {
        self.pbs_order
    }

    /// Checks that this key has the shape and distributions required by a
    /// parameter set.
    pub fn check_compatible(&self, parameters: &TfheParameters<T>) -> (r: Result<(), TfheKeyError>)
        ensures
            match self.compatibility_error(parameters) {
                Some(e) => r == Err::<(), TfheKeyError>(e),
                None => r is Ok,
            },
            r is Ok ==> ring_key_type_eq(
                self.glwe_secret_key_spec().distr_spec(),
                parameters.glwe_spec().inner_spec().secret_key_type_spec(),
            ),
            r is Ok ==> self.lwe_secret_key_spec().len() == parameters.ciphertext_lwe_dimension_spec(),
    {
        proof {
            lemma_compatible_keys_match(*self, *parameters);
            use_type_invariant(&self.glwe_secret_key);
        }
        if self.pbs_order != parameters.pbs_order() {
            return Err(
                TfheKeyError::PbsOrderMismatch { expected: parameters.pbs_order(), actual: self.pbs_order },
            );
        }
        if self.small_lwe_secret_key.dimension() != parameters.small_lwe().dimension() {
            return Err(
                TfheKeyError::LweDimensionMismatch {
                    expected: parameters.small_lwe().dimension(),
                    actual: self.small_lwe_secret_key.dimension(),
                },
            );
        }
        if self.small_lwe_secret_key.distr() != parameters.small_lwe().secret_key_type() {
            return Err(TfheKeyError::LweSecretKeyDistributionMismatch);
        }
        if self.glwe_secret_key.dimension() != parameters.glwe().dimension() {
            return Err(
                TfheKeyError::GlweDimensionMismatch {
                    expected: parameters.glwe().dimension(),
                    actual: self.glwe_secret_key.dimension(),
                },
            );
        }
        if self.glwe_secret_key.poly_length() != parameters.glwe().poly_length() {
            return Err(
                TfheKeyError::PolynomialLengthMismatch {
                    expected: parameters.glwe().poly_length(),
                    actual: self.glwe_secret_key.poly_length(),
                },
            );
        }
        if self.glwe_secret_key.distr() != parameters.glwe().secret_key_type() {
            return Err(TfheKeyError::GlweSecretKeyDistributionMismatch);
        }
        Ok(())
    }

    /// Decomposes this client key into its two secret keys.
    pub fn into_parts(self) -> (r: (LweSecretKey<T>, GlweSecretKey<T>, PbsOrder))
        ensures
            r.0 == *self.small_lwe_secret_key_spec(),
            r.1 == *self.glwe_secret_key_spec(),
            r.2 == self.pbs_order_spec(),
    {
        (self.small_lwe_secret_key, self.glwe_secret_key, self.pbs_order)
    }
}

/// Law: a client key is compatible with a parameter set only when it
/// matches it in every respect: PBS order, LWE key length and distribution,
/// GLWE dimension and polynomial length, and GLWE key distribution (as
/// `==` compares distributions). Once everything before the last matches, a
/// GLWE key of another distribution is reported as
/// `GlweSecretKeyDistributionMismatch`.
pub proof fn lemma_compatible_keys_match<T: FheUint>(key: ClientKey<T>, p: TfheParameters<T>)
    ensures
        key.compatibility_error(&p) is None ==> {
            &&& key.pbs_order_spec() == p.pbs_order_spec()
            &&& key.small_lwe_secret_key_spec().key_spec().len() == p.small_lwe_spec().dimension_spec()
            &&& key.small_lwe_secret_key_spec().distr_spec() == p.small_lwe_spec().secret_key_type_spec()
            &&& key.glwe_secret_key_spec().glwe_size_spec().dimension_spec()
                == p.glwe_spec().common_size_spec().dimension_spec()
            &&& key.glwe_secret_key_spec().glwe_size_spec().poly_length_spec()
                == p.glwe_spec().common_size_spec().poly_length_spec()
            &&& ring_key_type_eq(
                key.glwe_secret_key_spec().distr_spec(),
                p.glwe_spec().inner_spec().secret_key_type_spec(),
            )
        },
        key.pbs_order_spec() == p.pbs_order_spec() && key.small_lwe_secret_key_spec().key_spec().len()
            == p.small_lwe_spec().dimension_spec() && key.small_lwe_secret_key_spec().distr_spec()
            == p.small_lwe_spec().secret_key_type_spec()
            && key.glwe_secret_key_spec().glwe_size_spec().dimension_spec()
            == p.glwe_spec().common_size_spec().dimension_spec()
            && key.glwe_secret_key_spec().glwe_size_spec().poly_length_spec()
            == p.glwe_spec().common_size_spec().poly_length_spec() && !ring_key_type_eq(
            key.glwe_secret_key_spec().distr_spec(),
            p.glwe_spec().inner_spec().secret_key_type_spec(),
        ) ==> key.compatibility_error(&p) == Some(TfheKeyError::GlweSecretKeyDistributionMismatch),
{
}

} // verus!
