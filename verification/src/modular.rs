//! Exact modular arithmetic on lifted coefficient values.
//!
//! Coefficients of `u32`/`u64` words are lifted to `u128`, where products of
//! two coefficients cannot overflow.
use crate::arith::is_power_of_two;
use vstd::arithmetic::div_mod::*;
use vstd::arithmetic::mul::*;
use vstd::arithmetic::power2::*;
use vstd::prelude::*;

verus! {

/// `(q - x) mod q`, the modular negation of a canonical value `x < q`.
pub open spec fn neg_mod_spec(x: nat, q: nat) -> nat {
    if x == 0 {
        0
    } else {
        (q - x) as nat
    }
}

/// Returns `2^e`.
pub fn pow2_u128(e: u32) -> (r: u128)
    requires
        e < 128,
    ensures
        r == pow2(e as nat),
        r > 0,
{
    let mut r: u128 = 1;
    let mut i: u32 = 0;
    proof {
        lemma2_to64();
    }
    while i < e
        invariant
            i <= e < 128,
            r == pow2(i as nat),
        decreases e - i,
    {
        proof {
            lemma_pow2_unfold((i + 1) as nat);
            lemma_pow2_strictly_increases((i + 1) as nat, 128);
            lemma_pow2_adds(64, 64);
            lemma2_to64_rest();
            assert(pow2(128) == 0x1_0000_0000_0000_0000nat * 0x1_0000_0000_0000_0000nat);
        }
        r = r * 2;
        i = i + 1;
    }
    proof {
        lemma_pow2_pos(e as nat);
    }
    r
}

/// Odd numbers greater than one are not powers of two.
proof fn lemma_odd_not_power_of_two(x: nat)
    requires
        x > 1,
        x % 2 == 1,
    ensures
        !is_power_of_two(x),
{
    if is_power_of_two(x) {
        let k = choose|k: nat| pow2(k) == x;
        if k == 0 {
            lemma2_to64();
        } else {
            lemma_pow2_unfold(k);
            lemma_mod_multiples_vanish(pow2((k - 1) as nat) as int, 0, 2);
        }
    }
}

/// `2^j * y` is a power of two exactly when `y` is.
proof fn lemma_scaled_power_of_two(j: nat, y: nat)
    requires
        y > 0,
    ensures
        is_power_of_two(pow2(j) * y) <==> is_power_of_two(y),
{
    lemma_pow2_pos(j);
    if is_power_of_two(y) {
        let k = choose|k: nat| pow2(k) == y;
        lemma_pow2_adds(j, k);
        assert(pow2(j + k) == pow2(j) * y);
    }
    if is_power_of_two(pow2(j) * y) {
        let k = choose|k: nat| pow2(k) == pow2(j) * y;
        if k < j {
            lemma_pow2_strictly_increases(k, j);
            lemma_mul_inequality(1, y as int, pow2(j) as int);
            lemma_mul_is_commutative(y as int, pow2(j) as int);
        } else {
            let d = (k - j) as nat;
            lemma_pow2_adds(j, d);
            lemma_mul_is_commutative(pow2(j) as int, pow2(d) as int);
            lemma_mul_is_commutative(pow2(j) as int, y as int);
            lemma_div_multiples_vanish(pow2(d) as int, pow2(j) as int);
            lemma_div_multiples_vanish(y as int, pow2(j) as int);
            assert(y == pow2(d));
        }
    }
}

/// Returns the exponent `k` with `2^k == x` when `x` is a power of two.
pub fn power_of_two_exponent(x: u128) -> (r: Option<u32>)
    requires
        x > 0,
    ensures
        r is Some <==> is_power_of_two(x as nat),
        r matches Some(k) ==> k < 128 && pow2(k as nat) == x,
{
    let mut y = x;
    let mut j: u32 = 0;
    proof {
        lemma2_to64();
    }
    while y % 2 == 0
        invariant
            y > 0,
            j < 128,
            pow2(j as nat) * y == x,
        decreases y,
    {
        proof {
            lemma_pow2_unfold((j + 1) as nat);
            lemma_fundamental_div_mod(y as int, 2);
            lemma_mul_is_associative(pow2(j as nat) as int, 2, (y / 2) as int);
            assert(pow2((j + 1) as nat) * (y / 2) == x);
            if j + 1 >= 128 {
                lemma_pow2_strictly_increases(127, (j + 1) as nat);
                lemma_pow2_adds(64, 63);
                lemma2_to64_rest();
                lemma_pow2_pos(63);
                lemma_mul_inequality(1, (y / 2) as int, pow2((j + 1) as nat) as int);
                lemma_mul_is_commutative((y / 2) as int, pow2((j + 1) as nat) as int);
                assert(false);
            }
        }
        y = y / 2;
        j = j + 1;
    }
    proof {
        lemma_scaled_power_of_two(j as nat, y as nat);
        if y > 1 {
            lemma_odd_not_power_of_two(y as nat);
        } else {
            lemma2_to64();
            assert(is_power_of_two(1));
        }
    }
    if y == 1 {
        Some(j)
    } else {
        None
    }
}

/// Returns `(a + b) mod q` for canonical `a, b < q`.
pub fn reduce_add(a: u128, b: u128, q: u128) -> (r: u128)
    requires
        a < q,
        b < q,
        q <= 0x1_0000_0000_0000_0000,
    ensures
        r == (a + b) % (q as int),
        r < q,
{
    let s = a + b;
    if s >= q {
        proof {
            lemma_fundamental_div_mod_converse(s as int, q as int, 1, (s - q) as int);
        }
        s - q
    } else {
        proof {
            lemma_small_mod(s as nat, q as nat);
        }
        s
    }
}

/// Returns `(q - x) mod q` for a canonical `x < q`.
pub fn reduce_neg(x: u128, q: u128) -> (r: u128)
    requires
        x < q,
    ensures
        r == neg_mod_spec(x as nat, q as nat),
        r < q,
{
    if x == 0 {
        0
    } else {
        q - x
    }
}

/// Returns the canonical residue of a signed value `s` modulo `q`.
pub fn signed_residue(s: i128, q: u128) -> (r: u128)
    requires
        q > 0,
        -0x1_0000_0000_0000_0000 < s < 0x1_0000_0000_0000_0000,
    ensures
        r == (s as int) % (q as int),
        r < q,
{
    if s < 0 {
        let m = (-s) as u128;
        let rm = m % q;
        proof {
            lemma_fundamental_div_mod(m as int, q as int);
            lemma_mod_bound(m as int, q as int);
            let k = (m / q) as int;
            assert(s as int == (-k) * (q as int) - rm) by (nonlinear_arith)
                requires
                    m == q * k + rm,
                    s == -m,
            ;
            assert((-k) * (q as int) - rm == (-k - 1) * (q as int) + (q - rm)) by (nonlinear_arith);
        }
        if rm == 0 {
            proof {
                lemma_fundamental_div_mod_converse(s as int, q as int, -((m / q) as int), 0);
            }
            0
        } else {
            proof {
                lemma_fundamental_div_mod_converse(
                    s as int,
                    q as int,
                    -((m / q) as int) - 1,
                    (q - rm) as int,
                );
            }
            q - rm
        }
    } else {
        proof {
            lemma_mod_bound(s as int, q as int);
        }
        (s as u128) % q
    }
}

/// Returns `round(a * b / c) = floor((a * b + floor(c / 2)) / c)`.
pub fn mul_div_round(a: u128, b: u128, c: u128) -> (r: u128)
    requires
        c > 0,
        a < 0x1_0000_0000_0000_0000,
        b <= 0x1_0000_0000_0000_0000,
        c <= 0x1_0000_0000_0000_0000,
        a * b + c / 2 < 0x1_0000_0000_0000_0000_0000_0000_0000_0000,
    ensures
        r == (a * b + c / 2) / (c as int),
{
    (a * b + c / 2) / c
}

} // verus!
