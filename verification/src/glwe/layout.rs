//! Polynomial-major views of `QP`-basis GLWE ciphertexts.
//!
//! A ciphertext is a sequence of polynomials; each polynomial holds
//! `moduli_count` limbs of `poly_length` residues, limb `i` being the
//! polynomial reduced modulo the `i`-th modulus.
use vstd::arithmetic::div_mod::*;
use vstd::arithmetic::mul::*;
use vstd::prelude::*;

verus! {

/// Where limb `modulus_index` of polynomial `p` starts.
pub open spec fn limb_start(p: int, rns_poly_len: int, modulus_index: int, poly_length: int) -> int {
    p * rns_poly_len + modulus_index * poly_length
}

/// Immutable view of a polynomial-major `QP`-basis GLWE ciphertext.
pub struct QpGlweRef<'a, T> {
    data: &'a [T],
    poly_length: usize,
    moduli_count: usize,
    rns_poly_len: usize,
}

impl<'a, T> Copy for QpGlweRef<'a, T> {

}

impl<'a, T> Clone for QpGlweRef<'a, T> {
    fn clone(&self) -> (r: Self)
        ensures
            r == *self,
    {
        *self
    }
}

impl<'a, T> QpGlweRef<'a, T> {
    #[verifier::type_invariant]
    closed spec fn inv(self) -> bool {
        &&& self.rns_poly_len == self.poly_length * self.moduli_count
        &&& self.rns_poly_len > 0
        &&& self.data@.len() % (self.rns_poly_len as nat) == 0
    }

    /// The viewed residues.
    pub closed spec fn data_spec(self) -> Seq<T> {
        self.data@
    }

    pub closed spec fn poly_length_spec(self) -> nat {
        self.poly_length as nat
    }

    pub closed spec fn moduli_count_spec(self) -> nat {
        self.moduli_count as nat
    }

    /// Creates a checked view over complete `QP`-basis polynomials.
    pub fn new(data: &'a [T], poly_length: usize, moduli_count: usize) -> (r: Self)
        requires
            poly_length * moduli_count <= usize::MAX,
            poly_length * moduli_count > 0,
            data@.len() % (poly_length * moduli_count) as nat == 0,
        ensures
            r.data_spec() == data@,
            r.poly_length_spec() == poly_length,
            r.moduli_count_spec() == moduli_count,
    {
        let rns_poly_len = poly_length * moduli_count;
        QpGlweRef { data, poly_length, moduli_count, rns_poly_len }
    }

    /// The same modulus limb of every GLWE polynomial, in polynomial order.
    pub fn modulus_limbs(self, modulus_index: usize) -> (r: Vec<&'a [T]>)
        requires
            modulus_index < self.moduli_count_spec(),
        ensures
            r@.len() * self.poly_length_spec() * self.moduli_count_spec() == self.data_spec().len(),
            forall|p: int|
                0 <= p < r@.len() ==> (#[trigger] r@[p])@ == self.data_spec().subrange(
                    limb_start(
                        p,
                        (self.poly_length_spec() * self.moduli_count_spec()) as int,
                        modulus_index as int,
                        self.poly_length_spec() as int,
                    ),
                    limb_start(
                        p,
                        (self.poly_length_spec() * self.moduli_count_spec()) as int,
                        modulus_index as int,
                        self.poly_length_spec() as int,
                    ) + self.poly_length_spec(),
                ),
    {
        proof {
            use_type_invariant(&self);
        }
        let n = self.poly_length;
        let rns = self.rns_poly_len;
        let total = self.data.len();
        let count = total / rns;
        proof {
            lemma_fundamental_div_mod(total as int, rns as int);
            lemma_mul_is_commutative(count as int, rns as int);
            assert(modulus_index * n + n <= rns) by (nonlinear_arith)
                requires
                    modulus_index < self.moduli_count,
                    rns == n * self.moduli_count,
            ;
        }
        let limb_offset = modulus_index * n;
        let mut limbs: Vec<&'a [T]> = Vec::new();
        let mut p: usize = 0;
        while p < count
            invariant
                count * rns == total,
                total == self.data@.len(),
                rns == self.rns_poly_len,
                rns == n * self.moduli_count,
                n == self.poly_length,
                limb_offset == modulus_index * n,
                limb_offset + n <= rns,
                p <= count,
                limbs@.len() == p,
                forall|q: int|
                    0 <= q < p ==> (#[trigger] limbs@[q])@ == self.data@.subrange(
                        limb_start(q, rns as int, modulus_index as int, n as int),
                        limb_start(q, rns as int, modulus_index as int, n as int) + n,
                    ),
            decreases count - p,
        {
            proof {
                assert((p + 1) * rns <= count * rns) by (nonlinear_arith)
                    requires
                        p < count,
                ;
                assert((p + 1) * rns == p * rns + rns) by (nonlinear_arith);
            }
            let start = p * rns + limb_offset;
            let limb = &self.data[start..start + n];
            limbs.push(limb);
            p = p + 1;
        }
        proof {
            assert(limbs@.len() * n * self.moduli_count == total) by (nonlinear_arith)
                requires
                    limbs@.len() == count,
                    count * rns == total,
                    rns == n * self.moduli_count,
            ;
        }
        limbs
    }
}


/// The residues of a `QP`-basis ciphertext after limb `off .. off + n` of
/// each of its first `finals.len()` polynomials has been replaced by the
/// matching entry of `finals`; the rest of those polynomials is unchanged.
pub open spec fn limbs_written<T>(
    old_data: Seq<T>,
    finals: Seq<Seq<T>>,
    rns: int,
    off: int,
    n: int,
) -> Seq<T>
    decreases finals.len(),
{
    if finals.len() == 0 {
        Seq::empty()
    } else {
        let q = finals.len() - 1;
        limbs_written(old_data, finals.drop_last(), rns, off, n) + old_data.subrange(
            q * rns,
            q * rns + off,
        ) + finals.last() + old_data.subrange(q * rns + off + n, q * rns + rns)
    }
}

/// Mutable view of a polynomial-major `QP`-basis GLWE ciphertext.
pub struct QpGlweMut<'a, T> {
    /// The viewed residues.
    pub data: &'a mut [T],
    /// Length `N` of one limb.
    pub poly_length: usize,
    /// Number of limbs of one polynomial.
    pub moduli_count: usize,
    /// Residues of one polynomial: `N * moduli_count`.
    pub rns_poly_len: usize,
}

impl<'a, T> QpGlweMut<'a, T> {
    /// The view covers whole polynomials of `moduli_count` limbs of `N`
    /// residues.
    pub open spec fn wf(self) -> bool {
        &&& self.rns_poly_len == self.poly_length * self.moduli_count
        &&& self.rns_poly_len > 0
        &&& self.data@.len() % (self.rns_poly_len as nat) == 0
    }

    /// Creates a checked view over complete `QP`-basis polynomials.
    pub fn new(data: &'a mut [T], poly_length: usize, moduli_count: usize) -> (r: Self)
        requires
            poly_length * moduli_count <= usize::MAX,
            poly_length * moduli_count > 0,
            old(data)@.len() % (poly_length * moduli_count) as nat == 0,
        ensures
            r.wf(),
            r.data@ == old(data)@,
            (*final(r.data))@ == final(data)@,
            r.poly_length == poly_length,
            r.moduli_count == moduli_count,
    {
        let rns_poly_len = poly_length * moduli_count;
        QpGlweMut { data, poly_length, moduli_count, rns_poly_len }
    }

    /// The same modulus limb of every GLWE polynomial, in polynomial order,
    /// as mutable slices: what is written through them is what the viewed
    /// ciphertext holds afterwards.
    pub fn modulus_limbs_mut(self, modulus_index: usize) -> (r: Vec<&'a mut [T]>)
        requires
            self.wf(),
            modulus_index < self.moduli_count,
        ensures
            r@.len() * self.rns_poly_len == old(self.data)@.len(),
            forall|p: int|
                0 <= p < r@.len() ==> (*#[trigger] r@[p])@ == old(self.data)@.subrange(
                    limb_start(p, self.rns_poly_len as int, modulus_index as int, self.poly_length as int),
                    limb_start(p, self.rns_poly_len as int, modulus_index as int, self.poly_length as int)
                        + self.poly_length,
                ),
            (*final(self.data))@ == limbs_written(
                old(self.data)@,
                Seq::new(r@.len(), |p: int| (*final(r@[p]))@),
                self.rns_poly_len as int,
                modulus_index * self.poly_length,
                self.poly_length as int,
            ),
    {
        let n = self.poly_length;
        let rns = self.rns_poly_len;
        let ghost old_data: Seq<T> = self.data@;
        let ghost fin: Seq<T> = (*final(self.data))@;
        let total = self.data.len();
        let count = total / rns;
        proof {
            lemma_fundamental_div_mod(total as int, rns as int);
            lemma_mul_is_commutative(count as int, rns as int);
            assert(modulus_index * n + n <= rns) by (nonlinear_arith)
                requires
                    modulus_index < self.moduli_count,
                    rns == n * self.moduli_count,
            ;
        }
        let limb_offset = modulus_index * n;
        let mut rest: &'a mut [T] = self.data;
        let mut limbs: Vec<&'a mut [T]> = Vec::new();
        let mut p: usize = 0;
        while p < count
            invariant
                count * rns == total,
                total == old_data.len(),
                limb_offset == modulus_index * n,
                limb_offset + n <= rns,
                p <= count,
                limbs@.len() == p,
                rest@ == old_data.subrange(p * rns, count * rns),
                forall|q: int|
                    0 <= q < p ==> (*#[trigger] limbs@[q])@ == old_data.subrange(
                        limb_start(q, rns as int, modulus_index as int, n as int),
                        limb_start(q, rns as int, modulus_index as int, n as int) + n,
                    ),
                fin == limbs_written(
                    old_data,
                    Seq::new(p as nat, |q: int| (*final(limbs@[q]))@),
                    rns as int,
                    limb_offset as int,
                    n as int,
                ) + (*final(rest))@,
            decreases count - p,
        {
            proof {
                assert((p + 1) * rns <= count * rns) by (nonlinear_arith)
                    requires
                        p < count,
                ;
                assert((p + 1) * rns == p * rns + rns) by (nonlinear_arith);
            }
            let ghost rest_fin: Seq<T> = (*final(rest))@;
            let ghost before: Seq<&'a mut [T]> = limbs@;
            let (poly, tail) = rest.split_at_mut(rns);
            let (pre, mid) = poly.split_at_mut(limb_offset);
            let (limb, post) = mid.split_at_mut(n);
            let ghost prefix = old_data.subrange(p * rns, p * rns + limb_offset);
            let ghost suffix = old_data.subrange(p * rns + limb_offset + n, p * rns + rns);
            let ghost limb_fin: Seq<T> = (*final(limb))@;
            let ghost tail_fin: Seq<T> = (*final(tail))@;
            proof {
                assert(pre@ == prefix);
                assert(post@ == suffix);
                assert(rest_fin == prefix + limb_fin + suffix + tail_fin);
            }
            limbs.push(limb);
            rest = tail;
            proof {
                let fs = Seq::new((p + 1) as nat, |q: int| (*final(limbs@[q]))@);
                let fs_old = Seq::new(p as nat, |q: int| (*final(before[q]))@);
                assert(fs.drop_last() =~= fs_old);
                assert(fs.last() == limb_fin);
            }
            p = p + 1;
        }
        limbs
    }
}

} // verus!
