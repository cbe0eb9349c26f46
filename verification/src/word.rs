//! Unsigned machine words used as ciphertext coefficients.
//!
//! Every coefficient type `T` of this crate is an unsigned word of 32 or 64
//! bits. Arithmetic on coefficients is carried out on their exact values,
//! lifted to `u128`, and each result is proved against its mathematical
//! statement over `nat`/`int`.
use vstd::arithmetic::power2::*;
use vstd::prelude::*;

verus! {

/// `2^64`, the native modulus of 64-bit words.
pub open spec fn two_pow_64() -> nat {
    0x1_0000_0000_0000_0000
}

/// Unsigned coefficient word of 32 or 64 bits.
///
/// `nat_value` is the integer a word stands for; `word_modulus` is the
/// native wrapping modulus `2^BITS`.
pub trait FheUint: Copy + Sized {
    /// Signed word of the same width, used for small secret coefficients.
    type SignedInteger: Copy + core::fmt::Debug;

    /// The integer value of this word.
    spec fn nat_value(self) -> nat;

    /// The number of bits of the word.
    spec fn bits_spec() -> nat;

    /// The integer value of a signed word.
    spec fn signed_value(s: Self::SignedInteger) -> int;

    /// Width facts shared by all words.
    proof fn lemma_word_facts()
        ensures
            Self::bits_spec() == 32 || Self::bits_spec() == 64,
            pow2(Self::bits_spec()) <= two_pow_64(),
    ;

    /// Every word value lies below `2^BITS`.
    proof fn lemma_value_bounds(self)
        ensures
            self.nat_value() < pow2(Self::bits_spec()),
    ;

    /// Every signed word value lies in `[-2^(BITS-1), 2^(BITS-1))`.
    proof fn lemma_signed_bounds(s: Self::SignedInteger)
        ensures
            -pow2((Self::bits_spec() - 1) as nat) <= Self::signed_value(s) < pow2(
                (Self::bits_spec() - 1) as nat,
            ),
    ;

    /// Words with equal values are equal.
    proof fn lemma_value_injective(a: Self, b: Self)
        ensures
            a.nat_value() == b.nat_value() ==> a == b,
    ;

    /// Returns the number of bits of the word.
    fn bits() -> (b: u32)
        ensures
            b == Self::bits_spec(),
            b == 32 || b == 64,
    ;

    /// Returns the exact value of this word.
    fn to_u128(self) -> (r: u128)
        ensures
            r == self.nat_value(),
            r < pow2(Self::bits_spec()),
    ;

    /// Builds the word holding `v`.
    fn from_u128(v: u128) -> (r: Self)
        requires
            v < pow2(Self::bits_spec()),
        ensures
            r.nat_value() == v,
    ;

    /// Returns the exact value of a signed word.
    fn signed_to_i128(s: Self::SignedInteger) -> (r: i128)
        ensures
            r == Self::signed_value(s),
    ;
}

/// The native modulus `2^BITS` of the word type `T`.
pub open spec fn word_modulus<T: FheUint>() -> nat {
    pow2(T::bits_spec())
}

impl FheUint for u32 {
    type SignedInteger = i32;

    open spec fn nat_value(self) -> nat {
        self as nat
    }

    open spec fn bits_spec() -> nat {
        32
    }

    open spec fn signed_value(s: i32) -> int {
        s as int
    }

    proof fn lemma_word_facts() {
        lemma2_to64();
        lemma2_to64_rest();
    }

    proof fn lemma_value_bounds(self) {
        lemma2_to64();
    }

    proof fn lemma_signed_bounds(s: i32) {
        lemma2_to64();
    }

    proof fn lemma_value_injective(a: u32, b: u32) {
    }

    fn bits() -> (b: u32) {
        32
    }

    fn to_u128(self) -> (r: u128) {
        proof {
            lemma2_to64();
        }
        self as u128
    }

    fn from_u128(v: u128) -> (r: u32) {
        proof {
            lemma2_to64();
        }
        v as u32
    }

    fn signed_to_i128(s: i32) -> (r: i128) {
        s as i128
    }
}

impl FheUint for u64 {
    type SignedInteger = i64;

    open spec fn nat_value(self) -> nat {
        self as nat
    }

    open spec fn bits_spec() -> nat {
        64
    }

    open spec fn signed_value(s: i64) -> int {
        s as int
    }

    proof fn lemma_word_facts() {
        lemma2_to64();
        lemma2_to64_rest();
    }

    proof fn lemma_value_bounds(self) {
        lemma2_to64_rest();
    }

    proof fn lemma_signed_bounds(s: i64) {
        lemma2_to64_rest();
    }

    proof fn lemma_value_injective(a: u64, b: u64) {
    }

    fn bits() -> (b: u32) {
        64
    }

    fn to_u128(self) -> (r: u128) {
        proof {
            lemma2_to64_rest();
        }
        self as u128
    }

    fn from_u128(v: u128) -> (r: u64) {
        proof {
            lemma2_to64_rest();
        }
        v as u64
    }

    fn signed_to_i128(s: i64) -> (r: i128) {
        s as i128
    }
}

/// The modulus a coefficient lives in: the explicit value, or `2^BITS` for
/// the native wrapping modulus (`None`).
pub open spec fn modulus_value<T: FheUint>(modulus: Option<T>) -> nat {
    match modulus {
        Some(q) => q.nat_value(),
        None => word_modulus::<T>(),
    }
}

/// Returns `2^BITS` of the word type `T` as a `u128`.
pub fn word_modulus_u128<T: FheUint>() -> (r: u128)
    ensures
        r == word_modulus::<T>(),
        r == 0x1_0000_0000 || r == 0x1_0000_0000_0000_0000,
{
    proof {
        T::lemma_word_facts();
        lemma2_to64();
        lemma2_to64_rest();
    }
    if T::bits() == 32 {
        0x1_0000_0000u128
    } else {
        0x1_0000_0000_0000_0000u128
    }
}

} // verus!
