//! Secret-key distributions and the encoding of small signed secret
//! coefficients into residues.
use crate::word::FheUint;
use vstd::arithmetic::div_mod::*;
use vstd::arithmetic::mul::*;
use vstd::prelude::*;
use vstd::std_specs::cmp::PartialEqSpecImpl;

verus! {

/// The distribution type of the LWE secret key.
#[derive(Debug, Clone, Copy, PartialEq, Eq, Structural)]
pub enum LweSecretKeyType {
    /// Binary secret-key distribution.
    Binary,
    /// Ternary secret-key distribution.
    Ternary,
}

impl LweSecretKeyType {
    /// The default LWE secret-key distribution is ternary.
    pub fn default_type() -> (r: Self)
        ensures
            r == LweSecretKeyType::Ternary,
    {
        LweSecretKeyType::Ternary
    }
}

/// The IEEE-754 double with bit pattern `bits` is a NaN: all exponent bits
/// set and a non-zero fraction.
pub open spec fn f64_is_nan(bits: u64) -> bool {
    &&& (bits / 0x10_0000_0000_0000) % 0x800 == 0x7ff
    &&& bits % 0x10_0000_0000_0000 != 0
}

/// The IEEE-754 double with bit pattern `bits` is `+0.0` or `-0.0`.
pub open spec fn f64_is_zero(bits: u64) -> bool {
    bits % 0x8000_0000_0000_0000 == 0
}

/// Floating-point equality of the doubles with bit patterns `a` and `b`:
/// a NaN equals nothing, `+0.0` equals `-0.0`, and otherwise equal doubles
/// have equal bits.
pub open spec fn f64_bits_eq(a: u64, b: u64) -> bool {
    &&& !f64_is_nan(a)
    &&& !f64_is_nan(b)
    &&& (a == b || (f64_is_zero(a) && f64_is_zero(b)))
}

/// Compares two doubles, given by their bit patterns, as `==` on `f64`
/// does.
pub fn f64_bits_equal(a: u64, b: u64) -> (r: bool)
    ensures
        r == f64_bits_eq(a, b),
{
    let a_nan = (a / 0x10_0000_0000_0000) % 0x800 == 0x7ff && a % 0x10_0000_0000_0000 != 0;
    let b_nan = (b / 0x10_0000_0000_0000) % 0x800 == 0x7ff && b % 0x10_0000_0000_0000 != 0;
    let both_zero = a % 0x8000_0000_0000_0000 == 0 && b % 0x8000_0000_0000_0000 == 0;
    !a_nan && !b_nan && (a == b || both_zero)
}

/// The distribution type of the ring secret key.
///
/// The standard deviation of the Gaussian distribution is held as the bit
/// pattern of its IEEE-754 double (`f64::to_bits`); two Gaussian
/// distributions are equal when their deviations are equal as doubles.
#[derive(Debug, Clone, Copy)]
pub enum RingSecretKeyType {
    /// Binary secret-key distribution.
    Binary,
    /// Ternary secret-key distribution.
    Ternary,
    /// Gaussian secret-key distribution with the given standard deviation.
    Gaussian(u64),
}

/// `==` on ring secret-key distributions.
pub open spec fn ring_key_type_eq(a: RingSecretKeyType, b: RingSecretKeyType) -> bool {
    match (a, b) {
        (RingSecretKeyType::Binary, RingSecretKeyType::Binary) => true,
        (RingSecretKeyType::Ternary, RingSecretKeyType::Ternary) => true,
        (RingSecretKeyType::Gaussian(x), RingSecretKeyType::Gaussian(y)) => f64_bits_eq(x, y),
        _ => false,
    }
}

impl PartialEq for RingSecretKeyType {
    fn eq(&self, other: &Self) -> (r: bool) {
        match (self, other) {
            (RingSecretKeyType::Binary, RingSecretKeyType::Binary) => true,
            (RingSecretKeyType::Ternary, RingSecretKeyType::Ternary) => true,
            (RingSecretKeyType::Gaussian(x), RingSecretKeyType::Gaussian(y)) => f64_bits_equal(
                *x,
                *y,
            ),
            _ => false,
        }
    }
}

impl PartialEqSpecImpl for RingSecretKeyType {
    open spec fn obeys_eq_spec() -> bool {
        true
    }

    open spec fn eq_spec(&self, other: &Self) -> bool {
        ring_key_type_eq(*self, *other)
    }
}

impl RingSecretKeyType {
    /// The default ring secret-key distribution is ternary.
    pub fn default_type() -> (r: Self)
        ensures
            r == RingSecretKeyType::Ternary,
    {
        RingSecretKeyType::Ternary
    }
}

/// Distribution used to sample secret-key coefficients.
///
/// The Gaussian standard deviation is held as the bit pattern of its
/// IEEE-754 double; two Gaussian distributions are equal when their
/// deviations are equal as doubles.
#[derive(Debug, Clone, Copy)]
pub enum SecretKeyDistr {
    /// Uniform binary coefficients in `{0, 1}`.
    Binary,
    /// Uniform ternary coefficients in `{-1, 0, 1}`.
    Ternary,
    /// Centered discrete Gaussian coefficients with the given standard deviation.
    Gaussian(u64),
}

/// `==` on secret-key sampling distributions.
pub open spec fn secret_key_distr_eq(a: SecretKeyDistr, b: SecretKeyDistr) -> bool {
    match (a, b) {
        (SecretKeyDistr::Binary, SecretKeyDistr::Binary) => true,
        (SecretKeyDistr::Ternary, SecretKeyDistr::Ternary) => true,
        (SecretKeyDistr::Gaussian(x), SecretKeyDistr::Gaussian(y)) => f64_bits_eq(x, y),
        _ => false,
    }
}

impl PartialEq for SecretKeyDistr {
    fn eq(&self, other: &Self) -> (r: bool) {
        match (self, other) {
            (SecretKeyDistr::Binary, SecretKeyDistr::Binary) => true,
            (SecretKeyDistr::Ternary, SecretKeyDistr::Ternary) => true,
            (SecretKeyDistr::Gaussian(x), SecretKeyDistr::Gaussian(y)) => f64_bits_equal(*x, *y),
            _ => false,
        }
    }
}

impl PartialEqSpecImpl for SecretKeyDistr {
    open spec fn obeys_eq_spec() -> bool {
        true
    }

    open spec fn eq_spec(&self, other: &Self) -> bool {
        secret_key_distr_eq(*self, *other)
    }
}

/// Signed coefficient type used by canonical ring secret keys.
pub type SecretCoefficient<T> = <T as FheUint>::SignedInteger;

/// The canonical residue of `c` modulo `q`.
pub open spec fn residue_spec(c: int, q: nat) -> nat {
    (c % (q as int)) as nat
}

/// Encodes one small signed secret coefficient in `[0, modulus)`.
pub fn encode_secret_coefficient<T: FheUint>(coefficient: SecretCoefficient<T>, modulus: T) -> (r: T)
    requires
        -modulus.nat_value() < T::signed_value(coefficient) < modulus.nat_value(),
    ensures
        r.nat_value() == residue_spec(T::signed_value(coefficient), modulus.nat_value()),
        r.nat_value() < modulus.nat_value(),
{
    let c = T::signed_to_i128(coefficient);
    let q = modulus.to_u128();
    proof {
        modulus.lemma_value_bounds();
        T::lemma_word_facts();
    }
    if c < 0 {
        let magnitude = (-c) as u128;
        proof {
            lemma_fundamental_div_mod_converse(c as int, q as int, -1, (q - magnitude) as int);
        }
        T::from_u128(q - magnitude)
    } else {
        proof {
            lemma_small_mod(c as nat, q as nat);
        }
        T::from_u128(c as u128)
    }
}

/// Encodes a signed secret polynomial modulo `modulus` into `output`.
pub fn encode_secret_polynomial_to<T: FheUint>(coefficients: &[SecretCoefficient<T>], output: &mut [T], modulus: T)
    requires
        old(output)@.len() == coefficients@.len(),
        forall|i: int|
            0 <= i < coefficients@.len() ==> -modulus.nat_value() < T::signed_value(
                #[trigger] coefficients@[i],
            ) < modulus.nat_value(),
    ensures
        final(output)@.len() == coefficients@.len(),
        forall|i: int|
            0 <= i < coefficients@.len() ==> (#[trigger] final(output)@[i]).nat_value() == residue_spec(
                T::signed_value(coefficients@[i]),
                modulus.nat_value(),
            ),
{
    let n = coefficients.len();
    let mut i: usize = 0;
    while i < n
        invariant
            n == coefficients@.len(),
            output@.len() == n,
            i <= n,
            forall|k: int|
                0 <= k < n ==> -modulus.nat_value() < T::signed_value(#[trigger] coefficients@[k])
                    < modulus.nat_value(),
            forall|k: int|
                0 <= k < i ==> (#[trigger] output@[k]).nat_value() == residue_spec(
                    T::signed_value(coefficients@[k]),
                    modulus.nat_value(),
                ),
        decreases n - i,
    {
        let encoded = encode_secret_coefficient::<T>(coefficients[i], modulus);
        output[i] = encoded;
        i = i + 1;
    }
}

/// Encodes a signed secret polynomial into every limb of a residue-number-
/// system polynomial: limb `j` holds the residues modulo `moduli[j]`.
pub fn encode_secret_polynomial_to_rns<T: FheUint>(
    coefficients: &[SecretCoefficient<T>],
    output: &mut [T],
    moduli: &[T],
)
    requires
        coefficients@.len() > 0,
        old(output)@.len() == coefficients@.len() * moduli@.len(),
        forall|i: int, j: int|
            0 <= i < coefficients@.len() && 0 <= j < moduli@.len() ==> -(#[trigger] moduli@[j]).nat_value()
                < T::signed_value(#[trigger] coefficients@[i]) < moduli@[j].nat_value(),
    ensures
        final(output)@.len() == old(output)@.len(),
        forall|i: int, j: int|
            0 <= i < coefficients@.len() && 0 <= j < moduli@.len() ==> (#[trigger] final(output)@[j
                * coefficients@.len() + i]).nat_value() == residue_spec(
                T::signed_value(#[trigger] coefficients@[i]),
                moduli@[j].nat_value(),
            ),
{
    let n = coefficients.len();
    let limbs = moduli.len();
    let total = output.len();
    let mut j: usize = 0;
    while j < limbs
        invariant
            n == coefficients@.len(),
            n > 0,
            limbs == moduli@.len(),
            output@.len() == n * limbs,
            total == n * limbs,
            j <= limbs,
            forall|i: int, l: int|
                0 <= i < n && 0 <= l < limbs ==> -(#[trigger] moduli@[l]).nat_value() < T::signed_value(
                    #[trigger] coefficients@[i],
                ) < moduli@[l].nat_value(),
            forall|i: int, l: int|
                0 <= i < n && 0 <= l < j ==> (#[trigger] output@[l * n + i]).nat_value() == residue_spec(
                    T::signed_value(#[trigger] coefficients@[i]),
                    moduli@[l].nat_value(),
                ),
        decreases limbs - j,
    {
        let modulus = moduli[j];
        let mut i: usize = 0;
        proof {
            assert((j + 1) * n <= limbs * n) by (nonlinear_arith)
                requires
                    j < limbs,
                    n > 0,
            ;
            lemma_mul_is_commutative(limbs as int, n as int);
            lemma_mul_is_distributive_add_other_way(n as int, j as int, 1);
        }
        while i < n
            invariant
                n == coefficients@.len(),
                n > 0,
                limbs == moduli@.len(),
                output@.len() == n * limbs,
                total == n * limbs,
                j < limbs,
                (j + 1) * n <= n * limbs,
                (j + 1) * n == j * n + n,
                modulus == moduli@[j as int],
                i <= n,
                forall|k: int, l: int|
                    0 <= k < n && 0 <= l < limbs ==> -(#[trigger] moduli@[l]).nat_value() < T::signed_value(
                        #[trigger] coefficients@[k],
                    ) < moduli@[l].nat_value(),
                forall|k: int, l: int|
                    0 <= k < n && 0 <= l < j ==> (#[trigger] output@[l * n + k]).nat_value()
                        == residue_spec(
                        T::signed_value(#[trigger] coefficients@[k]),
                        moduli@[l].nat_value(),
                    ),
                forall|k: int|
                    0 <= k < i ==> (#[trigger] output@[j * n + k]).nat_value() == residue_spec(
                        T::signed_value(coefficients@[k]),
                        modulus.nat_value(),
                    ),
            decreases n - i,
        {
            let c = coefficients[i];
            proof {
                assert(-(moduli@[j as int]).nat_value() < T::signed_value(coefficients@[i as int]));
            }
            let encoded = encode_secret_coefficient::<T>(c, modulus);
            assert(j * n + i < n * limbs);
            let index = j * n + i;
            let ghost before = output@;
            output[index] = encoded;
            proof {
                // limbs before j are untouched
                assert forall|k: int, l: int| 0 <= k < n && 0 <= l < j implies #[trigger] output@[l * n
                    + k] == before[l * n + k] by {
                    assert(l * n + k < j * n) by (nonlinear_arith)
                        requires
                            0 <= k < n,
                            0 <= l < j,
                    ;
                }
                assert forall|k: int| 0 <= k < i implies #[trigger] output@[j * n + k] == before[j * n
                    + k] by {}
            }
            i = i + 1;
        }
        j = j + 1;
    }
}

} // verus!
