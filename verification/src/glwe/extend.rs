//! Extending small secret polynomials from one modulus to another.
//!
//! A secret coefficient known only as a residue `c` modulo the first modulus
//! `q0` is read as the signed value `c - q0` when `c > (q0 + 1) / 2` and as
//! `c` otherwise, and reduced modulo a further modulus `p`. For the small
//! coefficients of binary, ternary and narrow Gaussian keys this gives the
//! residue of the same signed coefficient modulo `p`.
use crate::word::{word_modulus, FheUint};
use vstd::arithmetic::div_mod::*;
use vstd::prelude::*;

verus! {

/// The signed value a residue `c` modulo `q0` stands for.
pub open spec fn centered_lift(c: nat, q0: nat) -> int {
    if c > (q0 + 1) / 2 {
        c - q0
    } else {
        c as int
    }
}

/// What [`extend_residue_to_modulus`] computes in word arithmetic: the
/// negative branch `p - (q0 - c)` wraps modulo `2^BITS`.
pub open spec fn extend_residue_spec(c: nat, q0: nat, p: nat, w: nat) -> nat {
    if c > (q0 + 1) / 2 {
        ((p + w - (q0 - c)) % (w as int)) as nat
    } else {
        c % p
    }
}

/// Law: a residue that reads as non-negative is reduced modulo `p` as it
/// is, whatever the sizes of `p` and `q0`; and whenever the signed value it
/// stands for is smaller than `p` in magnitude, the result is that signed
/// value modulo `p`.
pub proof fn lemma_extend_residue(c: nat, q0: nat, p: nat, w: nat)
    requires
        c < q0,
        0 < p < w,
    ensures
        c <= (q0 + 1) / 2 ==> extend_residue_spec(c, q0, p, w) == c % p,
        -(p as int) < centered_lift(c, q0) < p ==> extend_residue_spec(c, q0, p, w) == centered_lift(
            c,
            q0,
        ) % (p as int),
{
    if c > (q0 + 1) / 2 && -(p as int) < centered_lift(c, q0) {
        let m = (q0 - c) as int;
        assert(0 < m < p);
        lemma_mod_add_multiples_vanish(p - m, w as int);
        lemma_small_mod((p - m) as nat, w);
        lemma_mod_add_multiples_vanish(c - q0, p as int);
        lemma_small_mod((p - m) as nat, p);
    }
}

/// Reads the residue `c` modulo `q0` as a signed coefficient and returns it
/// modulo `p`.
pub fn extend_residue_to_modulus<T: FheUint>(c: T, q0: T, p: T) -> (r: T)
    requires
        c.nat_value() < q0.nat_value(),
        p.nat_value() > 0,
    ensures
        r.nat_value() == extend_residue_spec(
            c.nat_value(),
            q0.nat_value(),
            p.nat_value(),
            word_modulus::<T>(),
        ),
        q0.nat_value() - c.nat_value() <= p.nat_value() ==> r.nat_value() == centered_lift(
            c.nat_value(),
            q0.nat_value(),
        ) % (p.nat_value() as int),
        c.nat_value() <= (q0.nat_value() + 1) / 2 ==> r.nat_value() == c.nat_value()
            % p.nat_value(),
        -(p.nat_value() as int) < centered_lift(c.nat_value(), q0.nat_value()) < p.nat_value()
            ==> r.nat_value() == centered_lift(c.nat_value(), q0.nat_value()) % (
        p.nat_value() as int),
{
    proof {
        T::lemma_word_facts();
        c.lemma_value_bounds();
        q0.lemma_value_bounds();
        p.lemma_value_bounds();
    }
    proof {
        lemma_extend_residue(c.nat_value(), q0.nat_value(), p.nat_value(), word_modulus::<T>());
    }
    let cv = c.to_u128();
    let qv = q0.to_u128();
    let pv = p.to_u128();
    let w = crate::word::word_modulus_u128::<T>();
    let half = (qv + 1) / 2;
    if cv > half {
        let r = (pv + w - (qv - cv)) % w;
        proof {
            let m = qv - cv;
            if m <= pv {
                lemma_mod_add_multiples_vanish((pv - m) as int, w as int);
                lemma_small_mod((pv - m) as nat, w as nat);
                // (c - q0) mod p == (p - (q0 - c)) mod p
                lemma_mod_add_multiples_vanish(cv - qv, pv as int);
                if m == pv {
                    lemma_mod_self_0(pv as int);
                } else {
                    lemma_small_mod((pv - m) as nat, pv as nat);
                }
            }
            lemma_mod_bound((pv + w - m) as int, w as int);
        }
        T::from_u128(r)
    } else {
        proof {
            lemma_mod_bound(cv as int, pv as int);
        }
        T::from_u128(cv % pv)
    }
}

/// Extends one limb of small secret coefficients, given as residues modulo
/// `q0`, to the modulus `p`.
pub fn extend_limb_to_modulus<T: FheUint>(coefficients: &[T], q0: T, p: T, out: &mut [T])
    requires
        old(out)@.len() == coefficients@.len(),
        p.nat_value() > 0,
        forall|i: int| 0 <= i < coefficients@.len() ==> (#[trigger] coefficients@[i]).nat_value() < q0.nat_value(),
    ensures
        final(out)@.len() == coefficients@.len(),
        forall|i: int|
            0 <= i < coefficients@.len() ==> (#[trigger] final(out)@[i]).nat_value() == extend_residue_spec(
                coefficients@[i].nat_value(),
                q0.nat_value(),
                p.nat_value(),
                word_modulus::<T>(),
            ),
{
    let n = coefficients.len();
    let mut i: usize = 0;
    while i < n
        invariant
            n == coefficients@.len(),
            out@.len() == n,
            i <= n,
            p.nat_value() > 0,
            forall|k: int| 0 <= k < n ==> (#[trigger] coefficients@[k]).nat_value() < q0.nat_value(),
            forall|k: int|
                0 <= k < i ==> (#[trigger] out@[k]).nat_value() == extend_residue_spec(
                    coefficients@[k].nat_value(),
                    q0.nat_value(),
                    p.nat_value(),
                    word_modulus::<T>(),
                ),
        decreases n - i,
    {
        let r = extend_residue_to_modulus(coefficients[i], q0, p);
        out[i] = r;
        i = i + 1;
    }
}

} // verus!
