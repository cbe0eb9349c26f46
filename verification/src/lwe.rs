//! LWE key switching: the layout of a key-switching key.
//!
//! A key switching from a secret `s` of `n` coefficients to another key
//! holds, for every coefficient `s_i` and every gadget scalar `g_j`, an
//! encryption of `s_i * g_j` under the other key: a fresh encryption of
//! zero whose body is raised by `s_i * g_j mod q`. Entries are stored by
//! coefficient, then by scalar; each entry is `n_out + 1` residues.
use crate::ciphertext::LweCiphertext;
use crate::modular::{reduce_add, signed_residue};
use crate::secret_key_type::SecretCoefficient;
use crate::word::{word_modulus, FheUint};
use vstd::arithmetic::div_mod::*;
use vstd::arithmetic::mul::*;
use vstd::arithmetic::power2::*;
use vstd::prelude::*;

verus! {

/// Residue `k` of entry `e = i * L + j` of the key: the zero sample `e`,
/// with its body (residue `n_out`) raised by `s_i * g_j mod q`.
pub open spec fn ksk_residue<T: FheUint>(
    secret: Seq<SecretCoefficient<T>>,
    scalars: Seq<T>,
    samples: Seq<LweCiphertext<T>>,
    output_dimension: nat,
    q: nat,
    e: int,
    k: int,
) -> nat {
    let sample = samples[e].0@;
    if k < output_dimension {
        sample[k].nat_value()
    } else {
        let s = T::signed_value(secret[e / (scalars.len() as int)]);
        let g = scalars[e % (scalars.len() as int)].nat_value();
        ((sample[k].nat_value() + s * g) % (q as int)) as nat
    }
}

/// Assembles an LWE key-switching key from the coefficients of the input
/// secret key, the gadget scalars and one encryption of zero under the
/// output key per (coefficient, scalar) pair, taken in the order of the key.
pub fn assemble_lwe_key_switching_key<T: FheUint>(
    input_secret_key: &[SecretCoefficient<T>],
    scalars: &[T],
    zero_samples: Vec<LweCiphertext<T>>,
    output_dimension: usize,
    q: u128,
) -> (data: Vec<T>)
    requires
        2 <= q <= word_modulus::<T>(),
        output_dimension < usize::MAX,
        zero_samples@.len() == input_secret_key@.len() * scalars@.len(),
        zero_samples@.len() * (output_dimension + 1) <= usize::MAX,
        forall|j: int| 0 <= j < scalars@.len() ==> (#[trigger] scalars@[j]).nat_value() < q,
        forall|e: int|
            0 <= e < zero_samples@.len() ==> (#[trigger] zero_samples@[e]).0@.len()
                == output_dimension + 1,
        forall|e: int, k: int|
            0 <= e < zero_samples@.len() && 0 <= k <= output_dimension ==> (
            #[trigger] zero_samples@[e].0@[k]).nat_value() < q,
    ensures
        data@.len() == zero_samples@.len() * (output_dimension + 1),
        forall|e: int, k: int|
            #![trigger data@[e * (output_dimension + 1) + k]]
            0 <= e < zero_samples@.len() && 0 <= k <= output_dimension ==> data@[e * (
            output_dimension + 1) + k].nat_value() == ksk_residue(
                input_secret_key@,
                scalars@,
                zero_samples@,
                output_dimension as nat,
                q as nat,
                e,
                k,
            ),
{
    proof {
        T::lemma_word_facts();
        lemma2_to64();
        lemma2_to64_rest();
    }
    let m = output_dimension + 1;
    let count = zero_samples.len();
    let l = scalars.len();
    let mut data: Vec<T> = Vec::new();
    let mut e: usize = 0;
    while e < count
        invariant
            2 <= q <= word_modulus::<T>(),
            word_modulus::<T>() <= 0x1_0000_0000_0000_0000,
            m == output_dimension + 1,
            count == zero_samples@.len(),
            count == input_secret_key@.len() * l,
            l == scalars@.len(),
            count * m <= usize::MAX,
            e <= count,
            data@.len() == e * m,
            forall|j: int| 0 <= j < scalars@.len() ==> (#[trigger] scalars@[j]).nat_value() < q,
            forall|f: int| 0 <= f < count ==> (#[trigger] zero_samples@[f]).0@.len() == m,
            forall|f: int, k: int|
                0 <= f < count && 0 <= k < m ==> (#[trigger] zero_samples@[f].0@[k]).nat_value() < q,
            forall|f: int, k: int|
                #![trigger data@[f * m + k]]
                0 <= f < e && 0 <= k < m ==> data@[f * m + k].nat_value() == ksk_residue(
                    input_secret_key@,
                    scalars@,
                    zero_samples@,
                    output_dimension as nat,
                    q as nat,
                    f,
                    k,
                ),
        decreases count - e,
    {
        proof {
            assert(l > 0) by (nonlinear_arith)
                requires
                    e < count,
                    count == input_secret_key@.len() * l,
            ;
            lemma_fundamental_div_mod(e as int, l as int);
            lemma_mod_bound(e as int, l as int);
            assert(e / l < input_secret_key@.len()) by (nonlinear_arith)
                requires
                    e < count,
                    count == input_secret_key@.len() * l,
                    e == l * (e / l) + e % l,
                    0 <= e % l,
                    l > 0,
            ;
            assert((e + 1) * m <= count * m) by (nonlinear_arith)
                requires
                    e < count,
            ;
            assert((e + 1) * m == e * m + m) by (nonlinear_arith);
        }
        let i = e / l;
        let j = e % l;
        proof {
            T::lemma_word_facts();
            lemma2_to64();
            lemma2_to64_rest();
            T::lemma_signed_bounds(input_secret_key@[i as int]);
            lemma_pow2_strictly_increases((T::bits_spec() - 1) as nat, 64);
        }
        let s = signed_residue(T::signed_to_i128(input_secret_key[i]), q);
        let g = scalars[j].to_u128();
        proof {
            lemma_mul_upper_bound(s as int, 0xffff_ffff_ffff_ffff, g as int, 0xffff_ffff_ffff_ffff);
            lemma_mod_bound((s * g) as int, q as int);
        }
        let message = (s * g) % q;
        let sample = &zero_samples[e];
        let base = e * m;
        let ghost before = data@;
        let mut k: usize = 0;
        while k < output_dimension
            invariant
                m == output_dimension + 1,
                k <= output_dimension,
                base == e * m,
                data@.len() == base + k,
                sample.0@.len() == m,
                sample == zero_samples@[e as int],
                forall|t: int| 0 <= t < base ==> data@[t] == before[t],
                forall|t: int| 0 <= t < k ==> #[trigger] data@[base + t] == sample.0@[t],
            decreases output_dimension - k,
        {
            data.push(sample.0[k]);
            k = k + 1;
        }
        let body = sample.0[output_dimension].to_u128();
        let raised = reduce_add(body, message, q);
        data.push(T::from_u128(raised));
        proof {
            let qq = q as int;
            let si = T::signed_value(input_secret_key@[i as int]);
            // (b + (s mod q * g) mod q) mod q == (b + s * g) mod q
            lemma_mul_mod_noop_left(si, g as int, qq);
            lemma_add_mod_noop_right(body as int, si * g, qq);
            assert forall|f: int, kk: int|
                #![trigger data@[f * m + kk]]
                0 <= f < e + 1 && 0 <= kk < m implies data@[f * m + kk].nat_value() == ksk_residue(
                input_secret_key@,
                scalars@,
                zero_samples@,
                output_dimension as nat,
                q as nat,
                f,
                kk,
            ) by {
                if f < e {
                    assert(f * m + kk < e * m) by (nonlinear_arith)
                        requires
                            f < e,
                            kk < m,
                    ;
                    assert(data@[f * m + kk] == before[f * m + kk]);
                } else {
                    assert(f * m + kk == base + kk);
                    if kk < output_dimension {
                        assert(data@[base + kk] == sample.0@[kk]);
                    }
                }
            }
        }
        e = e + 1;
    }
    data
}

} // verus!
