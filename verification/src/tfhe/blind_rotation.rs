//! Modulus switching of LWE coefficients into blind-rotation exponents.
//!
//! Blind rotation rotates an accumulator by `X^(-MS(b) + sum_i MS(a_i) s_i)`,
//! where `MS` rounds a coefficient modulo `q` into `[0, 2N)`.
use crate::arith::{is_power_of_two, lemma_div_cancel_common, lemma_div_mul_plus_small, lemma_mod_then_div, lemma_pow2_divides};
use crate::word::{modulus_value, word_modulus, word_modulus_u128, FheUint};
use vstd::arithmetic::div_mod::*;
use vstd::arithmetic::mul::*;
use vstd::arithmetic::power2::*;
use vstd::prelude::*;

verus! {

/// `round(value * 2N / q) mod 2N`, rounding halves up.
pub open spec fn switch_spec(value: nat, q: nat, two_n: nat) -> nat {
    ((value * two_n + q / 2) / q) % two_n
}

/// Preconditions on `(value, modulus, two_n)` under which the modulus switch
/// of blind rotation is defined.
pub open spec fn switch_input_ok<T: FheUint>(value: T, modulus: Option<T>, two_n: usize) -> bool {
    &&& is_power_of_two(two_n as nat)
    &&& match modulus {
        Some(q) => 0 < q.nat_value() && value.nat_value() < q.nat_value() && two_n < word_modulus::<
            T,
        >(),
        None => two_n <= word_modulus::<T>(),
    }
}

/// Interprets a coefficient that already is an exponent in `[0, 2N)`.
pub fn direct_exponent<T: FheUint>(value: T, two_n: usize) -> (r: usize)
    requires
        value.nat_value() < two_n,
    ensures
        r == value.nat_value(),
{
    let v = value.to_u128();
    v as usize
}

/// Applies the same modulus switch used by blind rotation to one LWE
/// coefficient.
///
/// `modulus == None` selects the native modulus `2^BITS`. When the explicit
/// modulus equals `2N` the coefficient is already an exponent.
pub fn modulus_switch<T: FheUint>(value: T, modulus: Option<T>, two_n: usize) -> (r: usize)
    requires
        switch_input_ok(value, modulus, two_n),
    ensures
        r == switch_spec(value.nat_value(), modulus_value(modulus), two_n as nat),
        r < two_n,
{
    match modulus {
        Some(q) => {
            if two_n as u128 == q.to_u128() {
                let r = direct_exponent(value, two_n);
                proof {
                    let v = value.nat_value();
                    let m = two_n as nat;
                    lemma_div_mul_plus_small(v, m, m / 2);
                    lemma_small_mod(v, m);
                }
                r
            } else {
                explicit_modulus_switch(value, q, two_n)
            }
        },
        None => native_modulus_switch(value, two_n),
    }
}

/// Rounds a native-modulus coefficient `value / 2^BITS` to the nearest
/// multiple of `1 / 2N`, wrapping modulo `2N`.
///
/// The shift by `BITS - log2(2N)` of the word arithmetic is a division by
/// `scale = 2^BITS / 2N`; the half-up offset is `scale / 2`.
pub fn native_modulus_switch<T: FheUint>(value: T, two_n: usize) -> (r: usize)
    requires
        is_power_of_two(two_n as nat),
        two_n <= word_modulus::<T>(),
    ensures
        r == switch_spec(value.nat_value(), word_modulus::<T>(), two_n as nat),
        r < two_n,
{
    let w = word_modulus_u128::<T>();
    let v = value.to_u128();
    let target = two_n as u128;
    proof {
        T::lemma_word_facts();
        lemma2_to64();
        assert(is_power_of_two(w as nat)) by {
            assert(pow2(T::bits_spec()) == w);
        }
        lemma_pow2_divides(target as nat, w as nat);
    }
    let scale = w / target;
    let rounded = if scale == 1 {
        v
    } else {
        // wrapping_add of the half offset, then a right shift
        ((v + scale / 2) % w) / scale
    };
    let r = rounded % target;
    proof {
        let vn = v as nat;
        let t = target as nat;
        let s = scale as nat;
        let wn = w as nat;
        assert(wn == t * s);
        if s == 1 {
            assert(wn == t) by {
                lemma_mul_basics(t as int);
            }
            lemma_div_mul_plus_small(vn, wn, wn / 2);
            assert(switch_spec(vn, wn, t) == vn % t);
        } else {
            let h = s / 2;
            assert(s == 2 * h);
            let x = vn + h;
            // numerator of the specification: v * 2N + 2^BITS / 2 = 2N * (v + h)
            assert(wn / 2 == t * h) by {
                lemma_mul_is_associative(t as int, 2, h as int);
                lemma_mul_is_commutative(t as int, 2);
                lemma_mul_is_associative(2, t as int, h as int);
                lemma_div_multiples_vanish((t * h) as int, 2);
            }
            assert(vn * t + wn / 2 == t * x) by {
                lemma_mul_is_commutative(vn as int, t as int);
                lemma_mul_is_distributive_add(t as int, vn as int, h as int);
            }
            lemma_div_cancel_common(x, t, s);
            assert((vn * t + wn / 2) / wn == x / s);
            lemma_mod_then_div(x, t, s);
            assert(rounded == (x / s) % t);
            lemma_mod_bound((x / s) as int, t as int);
            lemma_small_mod(rounded as nat, t);
        }
    }
    r as usize
}

/// Rounds `value / q` to the nearest multiple of `1 / 2N`, wrapping modulo
/// `2N`, for an explicit ciphertext modulus `q`.
pub fn explicit_modulus_switch<T: FheUint>(value: T, modulus: T, two_n: usize) -> (r: usize)
    requires
        is_power_of_two(two_n as nat),
        0 < modulus.nat_value(),
        value.nat_value() < modulus.nat_value(),
        two_n < word_modulus::<T>(),
    ensures
        r == switch_spec(value.nat_value(), modulus.nat_value(), two_n as nat),
        r < two_n,
{
    let v = value.to_u128();
    let q = modulus.to_u128();
    let target = two_n as u128;
    proof {
        T::lemma_word_facts();
        lemma2_to64_rest();
        lemma_pow2_divides(target as nat, target as nat);
        assert(v * target <= 0xffff_ffff_ffff_ffffu128 * 0xffff_ffff_ffff_ffffu128) by {
            lemma_mul_upper_bound(
                v as int,
                0xffff_ffff_ffff_ffff,
                target as int,
                0xffff_ffff_ffff_ffff,
            );
        }
    }
    // (lo, hi) = value * 2N + q / 2, then the wide division by q
    let wide = v * target + q / 2;
    let rounded = wide / q;
    let r = rounded % target;
    proof {
        lemma_mod_bound(rounded as int, target as int);
    }
    r as usize
}

} // verus!
