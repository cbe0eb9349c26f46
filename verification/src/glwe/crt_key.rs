//! A coefficient-domain GLWE secret key over several moduli: polynomial `i`
//! occupies residues `[i * L, (i + 1) * L)` where `L = N * moduli_count`.
use crate::secret_key_type::RingSecretKeyType;
use crate::word::FheUint;
use vstd::arithmetic::div_mod::*;
use vstd::arithmetic::mul::*;
use vstd::arithmetic::power2::*;
use vstd::prelude::*;

verus! {

/// The concatenation of `parts`, in order.
pub open spec fn concat_all<T>(parts: Seq<Seq<T>>) -> Seq<T>
    decreases parts.len(),
{
    if parts.len() == 0 {
        Seq::empty()
    } else {
        concat_all(parts.drop_last()) + parts.last()
    }
}

/// A CRT-domain secret key for GLWE: residues of each secret polynomial
/// modulo every modulus of the basis.
pub struct CrtGlweSecretKey<T: FheUint> {
    key: Vec<T>,
    distr: RingSecretKeyType,
    rns_poly_len: usize,
}

impl<T: FheUint> CrtGlweSecretKey<T> {
    pub closed spec fn key_spec(&self) -> Seq<T> {
        self.key@
    }

    pub closed spec fn distr_spec(&self) -> RingSecretKeyType {
        self.distr
    }

    pub closed spec fn rns_poly_len_spec(&self) -> nat {
        self.rns_poly_len as nat
    }

    /// Creates a key from its residues and the length of one polynomial in
    /// the residue basis.
    pub fn new(key: Vec<T>, distr: RingSecretKeyType, rns_poly_len: usize) -> (k: Self)
        ensures
            k.key_spec() == key@,
            k.distr_spec() == distr,
            k.rns_poly_len_spec() == rns_poly_len,
    {
        CrtGlweSecretKey { key, distr, rns_poly_len }
    }

    /// Creates the all-zero key of `dimension` polynomials.
    pub fn zero(dimension: usize, crt_poly_len: usize, distr: RingSecretKeyType) -> (k: Self)
        requires
            dimension * crt_poly_len <= usize::MAX,
        ensures
            k.key_spec().len() == dimension * crt_poly_len,
            forall|i: int| 0 <= i < k.key_spec().len() ==> (#[trigger] k.key_spec()[i]).nat_value() == 0,
            k.distr_spec() == distr,
            k.rns_poly_len_spec() == crt_poly_len,
    {
        let len = dimension * crt_poly_len;
        proof {
            lemma_pow2_pos(T::bits_spec());
        }
        let zero = T::from_u128(0);
        let mut key: Vec<T> = Vec::new();
        let mut i: usize = 0;
        while i < len
            invariant
                i <= len,
                key@.len() == i,
                zero.nat_value() == 0,
                forall|j: int| 0 <= j < i ==> (#[trigger] key@[j]).nat_value() == 0,
            decreases len - i,
        {
            key.push(zero);
            i = i + 1;
        }
        CrtGlweSecretKey { key, distr, rns_poly_len: crt_poly_len }
    }

    /// Returns all residues.
    pub fn key(&self) -> (r: &[T])
        ensures
            r@ == self.key_spec(),
    {
        self.key.as_slice()
    }

    /// Returns the residues for modification.
    pub fn key_mut(&mut self) -> (r: &mut Vec<T>)
        ensures
            (*r)@ == old(self).key_spec(),
            final(self).key_spec() == (*final(r))@,
            final(self).distr_spec() == old(self).distr_spec(),
            final(self).rns_poly_len_spec() == old(self).rns_poly_len_spec(),
    {
        &mut self.key
    }

    /// Returns the secret-key distribution.
    pub fn distr(&self) -> (r: RingSecretKeyType)
        ensures
            r == self.distr_spec(),
    {
        self.distr
    }

    /// The whole polynomials of the key, in order.
    pub fn iter_crt_poly(&self) -> (r: Vec<&[T]>)
        requires
            self.rns_poly_len_spec() > 0,
        ensures
            r@.len() == self.key_spec().len() / self.rns_poly_len_spec(),
            forall|p: int|
                0 <= p < r@.len() ==> (#[trigger] r@[p])@ == self.key_spec().subrange(
                    p * self.rns_poly_len_spec(),
                    (p + 1) * self.rns_poly_len_spec(),
                ),
    {
        let l = self.rns_poly_len;
        let total = self.key.len();
        let count = total / l;
        proof {
            lemma_fundamental_div_mod(self.key@.len() as int, l as int);
            lemma_mod_bound(self.key@.len() as int, l as int);
            lemma_mul_is_commutative(count as int, l as int);
        }
        let mut polys: Vec<&[T]> = Vec::new();
        let mut p: usize = 0;
        while p < count
            invariant
                l == self.rns_poly_len,
                l > 0,
                total == self.key@.len(),
                count * l <= total,
                p <= count,
                polys@.len() == p,
                forall|q: int|
                    0 <= q < p ==> (#[trigger] polys@[q])@ == self.key@.subrange(q * l, (q + 1) * l),
            decreases count - p,
        {
            proof {
                assert((p + 1) * l <= count * l) by (nonlinear_arith)
                    requires
                        p < count,
                ;
                assert((p + 1) * l == p * l + l) by (nonlinear_arith);
            }
            let start = p * l;
            polys.push(&self.key[start..start + l]);
            p = p + 1;
        }
        polys
    }

    /// The whole polynomials of the key, in order, as mutable slices: what
    /// is written through them is what the key holds afterwards.
    pub fn iter_crt_poly_mut(&mut self) -> (r: Vec<&mut [T]>)
        requires
            old(self).rns_poly_len_spec() > 0,
        ensures
            r@.len() == old(self).key_spec().len() / old(self).rns_poly_len_spec(),
            forall|p: int|
                0 <= p < r@.len() ==> (*#[trigger] r@[p])@ == old(self).key_spec().subrange(
                    p * old(self).rns_poly_len_spec(),
                    (p + 1) * old(self).rns_poly_len_spec(),
                ),
            final(self).key_spec() == concat_all(Seq::new(r@.len(), |p: int| (*final(r@[p]))@))
                + old(self).key_spec().subrange(
                (r@.len() * old(self).rns_poly_len_spec()) as int,
                old(self).key_spec().len() as int,
            ),
            final(self).distr_spec() == old(self).distr_spec(),
            final(self).rns_poly_len_spec() == old(self).rns_poly_len_spec(),
    {
        let l = self.rns_poly_len;
        let count = self.key.len() / l;
        let ghost old_key: Seq<T> = self.key@;
        proof {
            lemma_fundamental_div_mod(old_key.len() as int, l as int);
            lemma_mod_bound(old_key.len() as int, l as int);
            lemma_mul_is_commutative(count as int, l as int);
        }
        let mut rest: &mut [T] = self.key.as_mut_slice();
        let ghost fin: Seq<T> = (*final(rest))@;
        let mut polys: Vec<&mut [T]> = Vec::new();
        let mut p: usize = 0;
        while p < count
            invariant
                l > 0,
                count * l <= old_key.len(),
                p <= count,
                polys@.len() == p,
                rest@ == old_key.subrange(p * l, old_key.len() as int),
                forall|q: int|
                    0 <= q < p ==> (*#[trigger] polys@[q])@ == old_key.subrange(q * l, (q + 1) * l),
                fin == concat_all(Seq::new(p as nat, |q: int| (*final(polys@[q]))@))
                    + (*final(rest))@,
            decreases count - p,
        {
            proof {
                assert((p + 1) * l <= count * l) by (nonlinear_arith)
                    requires
                        p < count,
                ;
                assert((p + 1) * l == p * l + l) by (nonlinear_arith);
            }
            let ghost rest_fin: Seq<T> = (*final(rest))@;
            let ghost before: Seq<&mut [T]> = polys@;
            let (poly, tail) = rest.split_at_mut(l);
            let ghost poly_fin: Seq<T> = (*final(poly))@;
            let ghost tail_fin: Seq<T> = (*final(tail))@;
            proof {
                assert(rest_fin == poly_fin + tail_fin);
            }
            polys.push(poly);
            rest = tail;
            proof {
                let fs = Seq::new((p + 1) as nat, |q: int| (*final(polys@[q]))@);
                let fs_old = Seq::new(p as nat, |q: int| (*final(before[q]))@);
                assert(fs.drop_last() =~= fs_old);
                assert(fs.last() == poly_fin);
            }
            p = p + 1;
        }
        proof {
            assert(rest@ == old_key.subrange(count * l, old_key.len() as int));
        }
        polys
    }
}

} // verus!
