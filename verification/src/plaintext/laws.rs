//! Correctness laws of plaintext encoding: decoding recovers the encoded
//! message, also after a small additive noise.
use crate::modular::neg_mod_spec;
use crate::plaintext::{
    centered_half_spec, decode_spec, embed_spec, encode_spec, scale_spec, PlaintextCodec,
    PlaintextEmbedding,
};
use crate::word::FheUint;
use vstd::arithmetic::div_mod::*;
use vstd::arithmetic::mul::*;
use vstd::prelude::*;

verus! {

/// Noise levels that decoding tolerates: `2 t (|noise| + 1) <= q`.
pub open spec fn noise_tolerated(t: nat, q: nat, noise: int) -> bool {
    let a = if noise < 0 {
        -noise
    } else {
        noise
    };
    2 * t * (a + 1) <= q
}

/// `(coefficient + noise) mod q`, as a canonical residue.
pub open spec fn add_noise_spec(coefficient: nat, noise: int, q: nat) -> nat {
    ((coefficient + noise) % (q as int)) as nat
}

/// If `x t + floor(q / 2) = q (m - k t) + z` with `0 <= z < q`, decoding `x`
/// yields `m`.
proof fn lemma_decode_from_decomposition(t: nat, q: nat, x: nat, m: nat, k: int, z: int)
    requires
        t > 0,
        q > 0,
        m < t,
        0 <= z < q,
        (x * t + q / 2) as int == q * (m - k * t) + z,
    ensures
        decode_spec(t, q, x) == m,
{
    let num = (x * t + q / 2) as int;
    let quot = m - k * t;
    lemma_mul_is_commutative(q as int, quot);
    lemma_fundamental_div_mod_converse(num, q as int, quot, z);
    assert(num / (q as int) == quot);
    assert(quot == t * (-k) + m) by {
        lemma_mul_is_commutative(k, t as int);
        lemma_mul_unary_negation(t as int, k);
    }
    lemma_mod_multiples_vanish(-k, m as int, t as int);
    lemma_small_mod(m, t);
}

/// Decoding an exactly rounded encoding of `m` plus a tolerated noise, for
/// a non-negative lift `m`.
proof fn lemma_decode_noisy_positive(t: nat, q: nat, m: nat, noise: int)
    requires
        2 <= t < q,
        m < t,
        noise_tolerated(t, q, noise) || noise == 0,
    ensures
        decode_spec(t, q, add_noise_spec(encode_spec(t, q, m), noise, q)) == m,
{
    let h = t / 2;
    let y = m * q + h;
    let e = encode_spec(t, q, m);
    let r = y % t;
    lemma_fundamental_div_mod(y as int, t as int);
    lemma_mod_bound(y as int, t as int);
    assert(t * e == y - r);
    // e + noise == q * k + x
    let s = e + noise;
    let x = add_noise_spec(e, noise, q);
    let k = s / (q as int);
    lemma_fundamental_div_mod(s, q as int);
    lemma_mod_bound(s, q as int);
    assert(x == s - q * k);
    let a = if noise < 0 {
        -noise
    } else {
        noise
    };
    let z = h - r + q / 2 + noise * t;
    assert(x * t == e * t + noise * t - q * k * t) by (nonlinear_arith)
        requires
            x == e + noise - q * k,
    ;
    assert(e * t == t * e) by {
        lemma_mul_is_commutative(e as int, t as int);
    }
    assert((x * t + q / 2) as int == q * (m - k * t) + z) by (nonlinear_arith)
        requires
            x * t == e * t + noise * t - q * k * t,
            e * t == y - r,
            y == m * q + h,
            z == h - r + q / 2 + noise * t,
    ;
    if noise == 0 {
        assert(0 <= z < q) by (nonlinear_arith)
            requires
                z == h - r + q / 2 + noise * t,
                noise == 0,
                0 <= r < t,
                h == t / 2,
                t < q,
        ;
    } else {
        assert(0 <= z < q) by (nonlinear_arith)
            requires
                z == h - r + q / 2 + noise * t,
                0 <= r < t,
                h == t / 2,
                2 * t * (a + 1) <= q,
                a >= 0,
                -a <= noise <= a,
                t > 0,
        ;
    }
    lemma_decode_from_decomposition(t, q, x, m, k, z);
}

/// Decoding a negated exactly rounded encoding of `t - m` plus a tolerated
/// noise yields `m`.
proof fn lemma_decode_noisy_negative(t: nat, q: nat, m: nat, noise: int)
    requires
        2 <= t < q,
        1 <= m < t,
        noise_tolerated(t, q, noise) || noise == 0,
    ensures
        decode_spec(t, q, add_noise_spec(neg_mod_spec(encode_spec(t, q, (t - m) as nat), q), noise, q))
            == m,
{
    let h = t / 2;
    let mp = (t - m) as nat;
    let y = mp * q + h;
    let e = encode_spec(t, q, mp);
    let r = y % t;
    lemma_fundamental_div_mod(y as int, t as int);
    lemma_mod_bound(y as int, t as int);
    assert(t * e == y - r);
    // the encoding of a non-zero magnitude is non-zero and below q
    assert(0 < e < q) by (nonlinear_arith)
        requires
            t * e == y - r,
            y == mp * q + h,
            1 <= mp < t,
            0 <= r < t,
            h == t / 2,
            t < q,
            t > 0,
    ;
    let ne = neg_mod_spec(e, q);
    assert(ne == q - e);
    let s = ne + noise;
    let x = add_noise_spec(ne, noise, q);
    let k = s / (q as int);
    lemma_fundamental_div_mod(s, q as int);
    lemma_mod_bound(s, q as int);
    assert(x == s - q * k);
    let a = if noise < 0 {
        -noise
    } else {
        noise
    };
    let z = r - h + q / 2 + noise * t;
    assert(x * t == (q - e) * t + noise * t - q * k * t) by (nonlinear_arith)
        requires
            x == (q - e) + noise - q * k,
    ;
    assert((x * t + q / 2) as int == q * (m - k * t) + z) by (nonlinear_arith)
        requires
            x * t == (q - e) * t + noise * t - q * k * t,
            t * e == y - r,
            y == mp * q + h,
            mp == t - m,
            z == r - h + q / 2 + noise * t,
    ;
    if noise == 0 {
        assert(0 <= z < q) by (nonlinear_arith)
            requires
                z == r - h + q / 2 + noise * t,
                noise == 0,
                0 <= r < t,
                h == t / 2,
                t < q,
        ;
    } else {
        assert(0 <= z < q) by (nonlinear_arith)
            requires
                z == r - h + q / 2 + noise * t,
                0 <= r < t,
                h == t / 2,
                2 * t * (a + 1) <= q,
                a >= 0,
                -a <= noise <= a,
                t > 0,
        ;
    }
    lemma_decode_from_decomposition(t, q, x, m, k, z);
}

proof fn lemma_decode_noisy_embed(t: nat, q: nat, m: nat, embedding: PlaintextEmbedding, noise: int)
    requires
        2 <= t < q,
        m < t,
        noise_tolerated(t, q, noise) || noise == 0,
    ensures
        decode_spec(t, q, add_noise_spec(embed_spec(t, q, m, embedding, false), noise, q)) == m,
{
    match embedding {
        PlaintextEmbedding::Unsigned => {
            lemma_decode_noisy_positive(t, q, m, noise);
        },
        PlaintextEmbedding::Centered => {
            if m < centered_half_spec(t) {
                lemma_decode_noisy_positive(t, q, m, noise);
            } else {
                lemma_decode_noisy_negative(t, q, m, noise);
            }
        },
    }
}

/// Decoding inverts encoding: for every message `m < t` and either
/// embedding, `decode(encode(m)) == m`.
pub proof fn lemma_decode_encode_round_trip<T: FheUint>(
    codec: PlaintextCodec<T>,
    m: nat,
    embedding: PlaintextEmbedding,
)
    requires
        2 <= codec.t_spec() < codec.modulus_spec(),
        m < codec.t_spec(),
    ensures
        decode_spec(
            codec.t_spec(),
            codec.modulus_spec(),
            embed_spec(codec.t_spec(), codec.modulus_spec(), m, embedding, false),
        ) == m,
{
    let t = codec.t_spec();
    let q = codec.modulus_spec();
    lemma_decode_noisy_embed(t, q, m, embedding, 0);
    let e = embed_spec(t, q, m, embedding, false);
    assert(e < q) by {
        lemma_encode_lt(t, q, m);
        if m >= centered_half_spec(t) {
            lemma_encode_lt(t, q, (t - m) as nat);
        }
    }
    lemma_small_mod(e, q);
}

/// Decoding tolerates noise: an encoding of `m < t` shifted by any noise `n`
/// with `2 t (|n| + 1) <= q` still decodes to `m`, under either embedding.
pub proof fn lemma_decode_tolerates_noise<T: FheUint>(
    codec: PlaintextCodec<T>,
    m: nat,
    embedding: PlaintextEmbedding,
    noise: int,
)
    requires
        2 <= codec.t_spec() < codec.modulus_spec(),
        m < codec.t_spec(),
        noise_tolerated(codec.t_spec(), codec.modulus_spec(), noise),
    ensures
        decode_spec(
            codec.t_spec(),
            codec.modulus_spec(),
            add_noise_spec(
                embed_spec(codec.t_spec(), codec.modulus_spec(), m, embedding, false),
                noise,
                codec.modulus_spec(),
            ),
        ) == m,
{
    lemma_decode_noisy_embed(codec.t_spec(), codec.modulus_spec(), m, embedding, noise);
}

/// Exact encodings of messages below `t` lie below `q`.
proof fn lemma_encode_lt(t: nat, q: nat, m: nat)
    requires
        2 <= t < q,
        m <= t,
    ensures
        m < t ==> encode_spec(t, q, m) < q,
{
    if m < t {
        let y = m * q + t / 2;
        lemma_fundamental_div_mod(y as int, t as int);
        lemma_mod_bound(y as int, t as int);
        let d = y / t;
        assert(d < q) by (nonlinear_arith)
            requires
                y == t * d + y % t,
                y % t >= 0,
                y == m * q + t / 2,
                m < t,
                t < q,
                t > 0,
        ;
    }
}

} // verus!
