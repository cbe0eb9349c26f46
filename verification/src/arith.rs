//! Integer facts shared by the modular-arithmetic proofs of this crate.
use vstd::arithmetic::div_mod::*;
use vstd::arithmetic::mul::*;
use vstd::arithmetic::power2::*;
use vstd::prelude::*;

verus! {

/// `n` is a power of two.
pub open spec fn is_power_of_two(n: nat) -> bool {
    exists|k: nat| pow2(k) == n
}

/// Powers of two divide larger powers of two, with a power-of-two quotient.
pub proof fn lemma_pow2_divides(a: nat, b: nat)
    requires
        is_power_of_two(a),
        is_power_of_two(b),
        a <= b,
    ensures
        a > 0,
        b % a == 0,
        b == a * (b / a),
        is_power_of_two(b / a),
        b / a >= 1,
        b / a == 1 || (b / a) % 2 == 0,
{
    let ka = choose|k: nat| pow2(k) == a;
    let kb = choose|k: nat| pow2(k) == b;
    if kb < ka {
        lemma_pow2_strictly_increases(kb, ka);
    }
    let d = (kb - ka) as nat;
    lemma_pow2_adds(ka, d);
    assert(kb == ka + d);
    lemma_pow2_pos(ka);
    lemma_pow2_pos(d);
    lemma_div_multiples_vanish(pow2(d) as int, a as int);
    assert(a * pow2(d) == pow2(d) * a) by {
        lemma_mul_is_commutative(a as int, pow2(d) as int);
    }
    assert(b / a == pow2(d));
    lemma_mod_multiples_vanish(pow2(d) as int, 0, a as int);
    assert(b % a == 0);
    if d > 0 {
        lemma_pow2_unfold(d);
        lemma_mod_multiples_vanish(pow2((d - 1) as nat) as int, 0, 2);
    } else {
        lemma2_to64();
    }
}

/// Cancelling a common positive factor in a quotient.
pub proof fn lemma_div_cancel_common(x: nat, a: nat, s: nat)
    requires
        a > 0,
        s > 0,
    ensures
        (a * x) / (a * s) == x / s,
{
    lemma_div_multiples_vanish(x as int, a as int);
    lemma_mul_nonnegative(a as int, x as int);
    lemma_div_denominator((a * x) as int, a as int, s as int);
}

/// Taking a remainder by `t * s` and then dividing by `s` equals dividing by
/// `s` and then taking a remainder by `t`.
pub proof fn lemma_mod_then_div(x: nat, t: nat, s: nat)
    requires
        t > 0,
        s > 0,
    ensures
        (x % (t * s)) / s == (x / s) % t,
{
    lemma_mod_breakdown(x as int, s as int, t as int);
    lemma_mul_is_commutative(t as int, s as int);
    let q = (x / s) % t;
    let r = x % s;
    lemma_mod_bound(x as int, s as int);
    lemma_mod_bound((x / s) as int, t as int);
    lemma_div_multiples_vanish_fancy(q as int, r as int, s as int);
}

/// `x < d * b` bounds the quotient `x / d` below `b`.
pub proof fn lemma_div_lt(x: nat, d: nat, b: nat)
    requires
        d > 0,
        x < d * b,
    ensures
        x / d < b,
{
    lemma_fundamental_div_mod(x as int, d as int);
    lemma_mod_bound(x as int, d as int);
    let y = x / d;
    assert(y < b) by (nonlinear_arith)
        requires
            x == d * y + x % d,
            x % d >= 0,
            x < d * b,
            d > 0,
    ;
}

/// `(v * m + h) / m == v` whenever `h < m`.
pub proof fn lemma_div_mul_plus_small(v: nat, m: nat, h: nat)
    requires
        m > 0,
        h < m,
    ensures
        (v * m + h) / m == v,
{
    lemma_mul_is_commutative(v as int, m as int);
    lemma_div_multiples_vanish_fancy(v as int, h as int, m as int);
}

} // verus!
