//! Plaintext encoding: messages modulo `t` embedded into ciphertext
//! coefficients modulo `q`.
//!
//! Every strategy computes the same mathematical encoding:
//! `encode(m) = round(m * q / t)`, `decode(e) = round(e * t / q) mod t`,
//! with `q = 2^BITS` for the native wrapping modulus.
use crate::arith::{is_power_of_two, lemma_div_cancel_common, lemma_div_lt, lemma_div_mul_plus_small};
use crate::modular::{mul_div_round, neg_mod_spec, pow2_u128, power_of_two_exponent, reduce_add, reduce_neg};
use crate::word::{modulus_value, word_modulus, word_modulus_u128, FheUint};
use vstd::arithmetic::div_mod::*;
use vstd::arithmetic::mul::*;
use vstd::arithmetic::power2::*;
use vstd::prelude::*;

pub mod accumulate;
pub mod decode;
pub mod encode;
pub mod laws;

verus! {

/// How a message in `[0, t)` is lifted before scaling.
#[derive(Clone, Copy, Debug, PartialEq, Eq, Structural)]
pub enum PlaintextEmbedding {
    /// The message `m` is encoded as `m`.
    Unsigned,
    /// Messages in the upper half `[ceil(t / 2), t)` stand for the negative
    /// values `m - t`.
    Centered,
}

/// Broad encoding strategy selected by [`PlaintextCodec::new`].
#[derive(Clone, Copy, Debug, Eq, PartialEq, Structural)]
pub enum PlaintextCodecKind {
    /// Native power-of-two torus encoding implemented with shifts.
    NativePow2,
    /// Explicit power-of-two modulus encoding implemented with shifts.
    ExplicitPow2,
    /// Native torus encoding using a rounded scale factor.
    NativeScaled,
    /// Explicit scaled encoding whose intermediate product fits in one limb.
    ExplicitScaledNarrow,
    /// Explicit scaled encoding requiring wide intermediate arithmetic.
    ExplicitScaledWide,
}

/// `round(m * q / t)`, rounding halves up.
pub open spec fn encode_spec(t: nat, q: nat, m: nat) -> nat {
    (m * q + t / 2) / t
}

/// The rounded scale factor `delta = round(q / t)`.
pub open spec fn delta_spec(t: nat, q: nat) -> nat {
    (q + t / 2) / t
}

/// `m * delta mod q`.
pub open spec fn delta_encode_spec(t: nat, q: nat, m: nat) -> nat {
    (m * delta_spec(t, q)) % q
}

/// `round(e * t / q) mod t`.
pub open spec fn decode_spec(t: nat, q: nat, e: nat) -> nat {
    ((e * t + q / 2) / q) % t
}

/// The first message of the negative half under centered embedding.
pub open spec fn centered_half_spec(t: nat) -> nat {
    (t + 1) / 2
}

/// Scales a magnitude: exactly rounded, or by the rounded factor `delta`.
pub open spec fn scale_spec(t: nat, q: nat, magnitude: nat, with_delta: bool) -> nat {
    if with_delta {
        delta_encode_spec(t, q, magnitude)
    } else {
        encode_spec(t, q, magnitude)
    }
}

/// The coefficient that encodes message `m < t` under `embedding`.
pub open spec fn embed_spec(
    t: nat,
    q: nat,
    m: nat,
    embedding: PlaintextEmbedding,
    with_delta: bool,
) -> nat {
    match embedding {
        PlaintextEmbedding::Unsigned => scale_spec(t, q, m, with_delta),
        PlaintextEmbedding::Centered => if m < centered_half_spec(t) {
            scale_spec(t, q, m, with_delta)
        } else {
            neg_mod_spec(scale_spec(t, q, (t - m) as nat, with_delta), q)
        },
    }
}

/// Plaintext/ciphertext modulus pairs accepted by [`PlaintextCodec::new`].
///
/// `t > 1`; an explicit `q` exceeds `t`; a power-of-two pair leaves at
/// least two encoding bits (`4t <= q`).
pub open spec fn codec_params_ok<T: FheUint>(t: T, q: Option<T>) -> bool {
    let tn = t.nat_value();
    &&& tn > 1
    &&& match q {
        None => is_power_of_two(tn) ==> 4 * tn <= word_modulus::<T>(),
        Some(qv) => {
            &&& qv.nat_value() > tn
            &&& (is_power_of_two(qv.nat_value()) && is_power_of_two(tn)) ==> 4 * tn
                <= qv.nat_value()
        },
    }
}

/// The strategy [`PlaintextCodec::new`] selects for `(t, q)`.
pub open spec fn codec_kind_spec<T: FheUint>(t: T, q: Option<T>) -> PlaintextCodecKind {
    match q {
        None => if is_power_of_two(t.nat_value()) {
            PlaintextCodecKind::NativePow2
        } else {
            PlaintextCodecKind::NativeScaled
        },
        Some(qv) => if is_power_of_two(qv.nat_value()) && is_power_of_two(t.nat_value()) {
            PlaintextCodecKind::ExplicitPow2
        } else if qv.nat_value() * t.nat_value() < word_modulus::<T>() {
            PlaintextCodecKind::ExplicitScaledNarrow
        } else {
            PlaintextCodecKind::ExplicitScaledWide
        },
    }
}

/// Native modulus `2^BITS` with a power-of-two `t`: encoding is a shift.
#[derive(Clone, Copy, Debug)]
pub struct NativePow2Codec<T: FheUint> {
    encode_shift: u32,
    decode_shift: u32,
    plain_mask: T,
}

/// Power-of-two explicit modulus and `t`: encoding is a shift.
#[derive(Clone, Copy, Debug)]
pub struct ExplicitPow2Codec<T: FheUint> {
    encode_shift: u32,
    decode_shift: u32,
    plain_mask: T,
    modulus: T,
}

/// Native modulus with any `t`: scaling by the rounded factor
/// `delta = round(2^BITS / t)`.
#[derive(Clone, Copy, Debug)]
pub struct NativeScaledCodec<T: FheUint> {
    delta: T,
}

/// Whether `q * t` fits in one word (`Narrow`) or needs wide arithmetic.
#[derive(Clone, Copy, Debug, Eq, PartialEq, Structural)]
pub enum ScaledArithmetic {
    /// `q * t` fits in one word.
    Narrow,
    /// `q * t` needs double-word arithmetic.
    Wide,
}

/// Explicit modulus `q` with exact rounding `round(m * q / t)`.
#[derive(Clone, Copy, Debug)]
pub struct ExplicitScaledCodec<T: FheUint> {
    q: T,
    delta_factor: T,
    arithmetic: ScaledArithmetic,
}

/// The arithmetic a codec uses, chosen once from `(t, q)`.
#[derive(Clone, Copy, Debug)]
pub enum CodecStrategy<T: FheUint> {
    /// See [`NativePow2Codec`].
    NativePow2(NativePow2Codec<T>),
    /// See [`ExplicitPow2Codec`].
    ExplicitPow2(ExplicitPow2Codec<T>),
    /// See [`NativeScaledCodec`].
    NativeScaled(NativeScaledCodec<T>),
    /// See [`ExplicitScaledCodec`].
    ExplicitScaled(ExplicitScaledCodec<T>),
}

/// Shift facts of a power-of-two strategy: `2^encode_shift * t == q`.
pub open spec fn pow2_shift_ok(encode_shift: u32, decode_shift: u32, t: nat, q: nat) -> bool {
    &&& 2 <= encode_shift < 128
    &&& decode_shift == encode_shift - 1
    &&& pow2(encode_shift as nat) * t == q
}

/// Preselected plaintext encoding/decoding strategy for fixed parameters.
#[derive(Copy, Debug)]
pub struct PlaintextCodec<T: FheUint> {
    t: T,
    centered_half: T,
    strategy: CodecStrategy<T>,
}

impl<T: FheUint> Clone for PlaintextCodec<T> {
    fn clone(&self) -> (r: Self)
        ensures
            r == *self,
    {
        *self
    }
}

impl<T: FheUint> PlaintextCodec<T> {
    /// The plaintext modulus `t`.
    pub closed spec fn t_spec(self) -> nat {
        self.t.nat_value()
    }

    /// The ciphertext modulus `q` (`2^BITS` for the native modulus).
    pub closed spec fn modulus_spec(self) -> nat {
        match self.strategy {
            CodecStrategy::NativePow2(_) => word_modulus::<T>(),
            CodecStrategy::NativeScaled(_) => word_modulus::<T>(),
            CodecStrategy::ExplicitPow2(c) => c.modulus.nat_value(),
            CodecStrategy::ExplicitScaled(c) => c.q.nat_value(),
        }
    }

    /// Whether the ciphertext modulus is the native wrapping modulus.
    pub closed spec fn is_native_spec(self) -> bool {
        match self.strategy {
            CodecStrategy::NativePow2(_) => true,
            CodecStrategy::NativeScaled(_) => true,
            _ => false,
        }
    }

    /// The selected strategy.
    pub closed spec fn kind_spec(self) -> PlaintextCodecKind {
        match self.strategy {
            CodecStrategy::NativePow2(_) => PlaintextCodecKind::NativePow2,
            CodecStrategy::ExplicitPow2(_) => PlaintextCodecKind::ExplicitPow2,
            CodecStrategy::NativeScaled(_) => PlaintextCodecKind::NativeScaled,
            CodecStrategy::ExplicitScaled(c) => match c.arithmetic {
                ScaledArithmetic::Narrow => PlaintextCodecKind::ExplicitScaledNarrow,
                ScaledArithmetic::Wide => PlaintextCodecKind::ExplicitScaledWide,
            },
        }
    }

    #[verifier::type_invariant]
    closed spec fn inv(self) -> bool {
        let t = self.t.nat_value();
        let q = self.modulus_spec();
        &&& 2 <= t < q
        &&& q <= word_modulus::<T>()
        &&& self.centered_half.nat_value() == centered_half_spec(t)
        &&& match self.strategy {
            CodecStrategy::NativePow2(c) => {
                &&& pow2_shift_ok(c.encode_shift, c.decode_shift, t, q)
                &&& c.plain_mask.nat_value() == t - 1
            },
            CodecStrategy::ExplicitPow2(c) => {
                &&& pow2_shift_ok(c.encode_shift, c.decode_shift, t, q)
                &&& c.plain_mask.nat_value() == t - 1
                &&& q < word_modulus::<T>()
            },
            CodecStrategy::NativeScaled(c) => c.delta.nat_value() == delta_spec(t, q),
            CodecStrategy::ExplicitScaled(c) => {
                &&& c.delta_factor.nat_value() == delta_spec(t, q)
                &&& q < word_modulus::<T>()
                &&& (c.arithmetic == ScaledArithmetic::Narrow <==> q * t < word_modulus::<T>())
            },
        }
    }

    /// Creates a codec for plaintext modulus `t` and ciphertext modulus `q`.
    ///
    /// `q = None` selects the native wrapping modulus `2^BITS`.
    pub fn new(t: T, q: Option<T>) -> (codec: Self)
        requires
            codec_params_ok(t, q),
        ensures
            codec.t_spec() == t.nat_value(),
            codec.modulus_spec() == modulus_value(q),
            codec.kind_spec() == codec_kind_spec(t, q),
            codec.is_native_spec() == (q is None),
    {
        let w = word_modulus_u128::<T>();
        let tv = t.to_u128();
        proof {
            T::lemma_word_facts();
            lemma2_to64();
            lemma2_to64_rest();
        }
        let t_exp = power_of_two_exponent(tv);
        let strategy = match q {
            None => {
                match t_exp {
                    Some(t_log) => {
                        proof {
                            let b = T::bits_spec();
                            t.lemma_value_bounds();
                            if t_log >= b {
                                if t_log > b {
                                    lemma_pow2_strictly_increases(b, t_log as nat);
                                }
                                assert(false);
                            }
                        }
                        // encode_shift = BITS - log2(t)
                        let encode_shift = T::bits() - t_log;
                        proof {
                            let b = T::bits_spec();
                            lemma_pow2_adds((b - t_log) as nat, t_log as nat);
                            assert(pow2(encode_shift as nat) * tv == w);
                            if encode_shift < 2 {
                                if encode_shift == 0 {
                                    assert(pow2(0) == 1);
                                } else {
                                    assert(pow2(1) == 2);
                                }
                                assert(4 * tv <= w);
                                assert(false);
                            }
                        }
                        CodecStrategy::NativePow2(
                            NativePow2Codec {
                                encode_shift,
                                decode_shift: encode_shift - 1,
                                plain_mask: T::from_u128(tv - 1),
                            },
                        )
                    },
                    None => {
                        // delta = round(2^BITS / t) = floor((2^BITS + t/2) / t)
                        let delta = (w + tv / 2) / tv;
                        proof {
                            assert(pow2(1) == 2);
                            assert(tv != 2);
                            assert(w + tv / 2 < tv * w) by (nonlinear_arith)
                                requires
                                    tv >= 3,
                                    w >= 4,
                            ;
                            lemma_div_lt((w + tv / 2) as nat, tv as nat, w as nat);
                        }
                        CodecStrategy::NativeScaled(NativeScaledCodec { delta: T::from_u128(delta) })
                    },
                }
            },
            Some(qt) => {
                let qv = qt.to_u128();
                let q_exp = power_of_two_exponent(qv);
                match (q_exp, t_exp) {
                    (Some(q_log), Some(t_log)) => {
                        proof {
                            if t_log >= q_log {
                                if t_log > q_log {
                                    lemma_pow2_strictly_increases(q_log as nat, t_log as nat);
                                }
                                assert(false);
                            }
                        }
                        let encode_shift = q_log - t_log;
                        proof {
                            lemma_pow2_adds((q_log - t_log) as nat, t_log as nat);
                            assert(pow2(encode_shift as nat) * tv == qv);
                            if encode_shift < 2 {
                                if encode_shift == 0 {
                                    assert(pow2(0) == 1);
                                } else {
                                    assert(pow2(1) == 2);
                                }
                                assert(false);
                            }
                        }
                        CodecStrategy::ExplicitPow2(
                            ExplicitPow2Codec {
                                encode_shift,
                                decode_shift: encode_shift - 1,
                                plain_mask: T::from_u128(tv - 1),
                                modulus: qt,
                            },
                        )
                    },
                    _ => {
                        let delta = qv / tv;
                        let rem = qv % tv;
                        let delta = if rem > (tv - 1) / 2 {
                            delta + 1
                        } else {
                            delta
                        };
                        proof {
                            lemma_fundamental_div_mod(qv as int, tv as int);
                            let d0 = qv / tv;
                            let h = tv / 2;
                            // (q + floor(t/2)) / t == q / t + (rem + floor(t/2)) / t
                            assert(qv + h == tv * d0 + (rem + h));
                            if rem > (tv - 1) / 2 {
                                assert(rem + h >= tv);
                                assert(rem + h < 2 * tv);
                                assert(tv * (d0 + 1) == tv * d0 + tv) by {
                                    lemma_mul_is_distributive_add(tv as int, d0 as int, 1);
                                }
                                assert(qv + h == tv * (d0 + 1) + (rem + h - tv));
                                lemma_div_multiples_vanish_fancy(
                                    (d0 + 1) as int,
                                    (rem + h - tv) as int,
                                    tv as int,
                                );
                            } else {
                                lemma_div_multiples_vanish_fancy(
                                    d0 as int,
                                    (rem + h) as int,
                                    tv as int,
                                );
                            }
                            assert(delta == delta_spec(tv as nat, qv as nat));
                            assert(delta <= qv) by {
                                lemma_div_is_ordered((qv + h) as int, (2 * qv) as int, tv as int);
                                lemma_div_is_ordered_by_denominator((2 * qv) as int, 2, tv as int);
                                lemma_div_multiples_vanish(qv as int, 2);
                            }
                        }
                        proof {
                            t.lemma_value_bounds();
                            qt.lemma_value_bounds();
                            lemma_mul_upper_bound(qv as int, 0xffff_ffff_ffff_ffff, tv as int, 0xffff_ffff_ffff_ffff);
                        }
                        let arithmetic = if qv * tv < w {
                            ScaledArithmetic::Narrow
                        } else {
                            ScaledArithmetic::Wide
                        };
                        CodecStrategy::ExplicitScaled(
                            ExplicitScaledCodec {
                                q: qt,
                                delta_factor: T::from_u128(delta),
                                arithmetic,
                            },
                        )
                    },
                }
            },
        };
        let centered_half = T::from_u128((tv + 1) / 2);
        PlaintextCodec { t, centered_half, strategy }
    }

    /// Returns the plaintext modulus `t` used by this codec.
    pub fn t(&self) -> (r: T)
        ensures
            r.nat_value() == self.t_spec(),
            2 <= self.t_spec() < self.modulus_spec(),
            self.modulus_spec() <= word_modulus::<T>(),
            self.is_native_spec() <==> self.modulus_spec() == word_modulus::<T>(),
    {
        proof {
            use_type_invariant(self);
        }
        self.t
    }

    /// Returns the preselected arithmetic strategy.
    pub fn kind(&self) -> (r: PlaintextCodecKind)
        ensures
            r == self.kind_spec(),
    {
        match self.strategy {
            CodecStrategy::NativePow2(_) => PlaintextCodecKind::NativePow2,
            CodecStrategy::ExplicitPow2(_) => PlaintextCodecKind::ExplicitPow2,
            CodecStrategy::NativeScaled(_) => PlaintextCodecKind::NativeScaled,
            CodecStrategy::ExplicitScaled(codec) => match codec.arithmetic {
                ScaledArithmetic::Narrow => PlaintextCodecKind::ExplicitScaledNarrow,
                ScaledArithmetic::Wide => PlaintextCodecKind::ExplicitScaledWide,
            },
        }
    }

    /// Returns the ciphertext modulus `q` (`2^BITS` when native).
    pub(crate) fn modulus_u128(&self) -> (r: u128)
        ensures
            r == self.modulus_spec(),
            2 <= self.t_spec() < r,
            r <= word_modulus::<T>(),
            word_modulus::<T>() <= 0x1_0000_0000_0000_0000,
    {
        proof {
            use_type_invariant(self);
            T::lemma_word_facts();
        }
        match self.strategy {
            CodecStrategy::NativePow2(_) => word_modulus_u128::<T>(),
            CodecStrategy::NativeScaled(_) => word_modulus_u128::<T>(),
            CodecStrategy::ExplicitPow2(c) => c.modulus.to_u128(),
            CodecStrategy::ExplicitScaled(c) => c.q.to_u128(),
        }
    }

    /// Returns the first message value of the negative half.
    pub(crate) fn centered_half_u128(&self) -> (r: u128)
        ensures
            r == centered_half_spec(self.t_spec()),
    {
        proof {
            use_type_invariant(self);
        }
        self.centered_half.to_u128()
    }

    /// Exactly rounded encoding `round(m * q / t)` of a magnitude `m < t`.
    pub(crate) fn encode_exact(&self, m: u128) -> (r: u128)
        requires
            m < self.t_spec(),
        ensures
            r == encode_spec(self.t_spec(), self.modulus_spec(), m as nat),
            r < self.modulus_spec(),
    {
        proof {
            use_type_invariant(self);
            T::lemma_word_facts();
            lemma2_to64_rest();
        }
        let t = self.t.to_u128();
        let q = self.modulus_u128();
        proof {
            lemma_encode_below_modulus(t as nat, q as nat, m as nat);
        }
        match self.strategy {
            CodecStrategy::NativePow2(c) => {
                let s = pow2_u128(c.encode_shift);
                proof {
                    lemma_pow2_scale_encode(t as nat, q as nat, s as nat, m as nat);
                }
                // magnitude << encode_shift
                m * s
            },
            CodecStrategy::ExplicitPow2(c) => {
                let s = pow2_u128(c.encode_shift);
                proof {
                    lemma_pow2_scale_encode(t as nat, q as nat, s as nat, m as nat);
                }
                m * s
            },
            CodecStrategy::NativeScaled(_) => {
                proof {
                    lemma_mul_upper_bound(m as int, 0xffff_ffff_ffff_fffe, q as int, 0x1_0000_0000_0000_0000);
                }
                // wide division of (m * 2^BITS + t/2) by t
                mul_div_round(m, q, t)
            },
            CodecStrategy::ExplicitScaled(_) => {
                proof {
                    lemma_mul_upper_bound(m as int, 0xffff_ffff_ffff_fffe, q as int, 0x1_0000_0000_0000_0000);
                }
                mul_div_round(m, q, t)
            },
        }
    }

    /// Encoding by the rounded scale factor: `m * delta mod q`.
    pub(crate) fn encode_delta(&self, m: u128) -> (r: u128)
        requires
            m < self.t_spec(),
        ensures
            r == delta_encode_spec(self.t_spec(), self.modulus_spec(), m as nat),
            r < self.modulus_spec(),
    {
        proof {
            use_type_invariant(self);
            T::lemma_word_facts();
            lemma2_to64_rest();
        }
        let t = self.t.to_u128();
        let q = self.modulus_u128();
        match self.strategy {
            CodecStrategy::NativePow2(c) => {
                let s = pow2_u128(c.encode_shift);
                proof {
                    lemma_pow2_scale_delta(t as nat, q as nat, s as nat, m as nat);
                }
                m * s
            },
            CodecStrategy::ExplicitPow2(c) => {
                let s = pow2_u128(c.encode_shift);
                proof {
                    lemma_pow2_scale_delta(t as nat, q as nat, s as nat, m as nat);
                }
                m * s
            },
            CodecStrategy::NativeScaled(c) => {
                let delta = c.delta.to_u128();
                proof {
                    lemma_mul_upper_bound(m as int, 0xffff_ffff_ffff_ffff, delta as int, 0xffff_ffff_ffff_ffff);
                    lemma_mod_bound((m * delta) as int, q as int);
                }
                // wrapping multiplication by delta
                (m * delta) % q
            },
            CodecStrategy::ExplicitScaled(c) => {
                let delta = c.delta_factor.to_u128();
                proof {
                    lemma_mul_upper_bound(m as int, 0xffff_ffff_ffff_ffff, delta as int, 0xffff_ffff_ffff_ffff);
                    lemma_mod_bound((m * delta) as int, q as int);
                }
                // prepared (Shoup) multiplication by delta modulo q
                (m * delta) % q
            },
        }
    }

    /// Modular negation of a canonical coefficient.
    pub(crate) fn neg(&self, e: u128) -> (r: u128)
        requires
            e < self.modulus_spec(),
        ensures
            r == neg_mod_spec(e as nat, self.modulus_spec()),
            r < self.modulus_spec(),
    {
        let q = self.modulus_u128();
        reduce_neg(e, q)
    }

    /// Modular addition of two canonical coefficients.
    pub(crate) fn add(&self, a: u128, e: u128) -> (r: u128)
        requires
            a < self.modulus_spec(),
            e < self.modulus_spec(),
        ensures
            r == (a + e) % (self.modulus_spec() as int),
            r < self.modulus_spec(),
    {
        let q = self.modulus_u128();
        reduce_add(a, e, q)
    }

    /// Decodes one canonical coefficient: `round(e * t / q) mod t`.
    pub(crate) fn decode_raw(&self, e: u128) -> (r: u128)
        requires
            e < self.modulus_spec(),
        ensures
            r == decode_spec(self.t_spec(), self.modulus_spec(), e as nat),
            r < self.t_spec(),
    {
        proof {
            use_type_invariant(self);
            T::lemma_word_facts();
            lemma2_to64_rest();
        }
        let t = self.t.to_u128();
        let q = self.modulus_u128();
        proof {
            lemma_mod_bound((((e as nat) * (t as nat) + (q as nat) / 2) / (q as nat)) as int, t as int);
        }
        match self.strategy {
            CodecStrategy::NativePow2(c) => {
                let a = pow2_u128(c.decode_shift);
                proof {
                    lemma_pow2_decode(t as nat, q as nat, c.encode_shift as nat, e as nat);
                }
                // ((encoded >> decode_shift) + 1) >> 1, masked to [0, t)
                ((e / a + 1) / 2) % t
            },
            CodecStrategy::ExplicitPow2(c) => {
                let a = pow2_u128(c.decode_shift);
                proof {
                    lemma_pow2_decode(t as nat, q as nat, c.encode_shift as nat, e as nat);
                }
                ((e / a + 1) / 2) % t
            },
            CodecStrategy::NativeScaled(_) => {
                proof {
                    lemma_mul_upper_bound(e as int, 0xffff_ffff_ffff_ffff, t as int, 0xffff_ffff_ffff_ffff);
                }
                // high word of encoded * t + 2^(BITS-1)
                let d = mul_div_round(e, t, q);
                proof {
                    lemma_round_quotient_bound(e as nat, t as nat, q as nat);
                }
                if d >= t {
                    proof {
                        lemma_mod_self_zero(t as int);
                    }
                    d - t
                } else {
                    proof {
                        lemma_small_mod(d as nat, t as nat);
                    }
                    d
                }
            },
            CodecStrategy::ExplicitScaled(_) => {
                proof {
                    lemma_mul_upper_bound(e as int, 0xffff_ffff_ffff_ffff, t as int, 0xffff_ffff_ffff_ffff);
                }
                let d = mul_div_round(e, t, q);
                proof {
                    lemma_round_quotient_bound(e as nat, t as nat, q as nat);
                }
                if d >= t {
                    proof {
                        lemma_mod_self_zero(t as int);
                    }
                    d - t
                } else {
                    proof {
                        lemma_small_mod(d as nat, t as nat);
                    }
                    d
                }
            },
        }
    }
}

/// `t mod t == 0`.
proof fn lemma_mod_self_zero(t: int)
    requires
        t > 0,
    ensures
        t % t == 0,
{
    lemma_mod_multiples_vanish(1, 0, t);
}

/// Exactly rounded encodings stay below the ciphertext modulus.
proof fn lemma_encode_below_modulus(t: nat, q: nat, m: nat)
    requires
        2 <= t < q,
        m < t,
    ensures
        encode_spec(t, q, m) < q,
{
    // m * q + t/2 <= (t - 1) * q + t/2 < t * q
    assert(m * q + t / 2 < t * q) by (nonlinear_arith)
        requires
            m < t,
            t < q,
    ;
    let x = m * q + t / 2;
    lemma_fundamental_div_mod(x as int, t as int);
    lemma_mod_bound(x as int, t as int);
    let d = x / t;
    assert(d < q) by (nonlinear_arith)
        requires
            x == t * d + x % t,
            x % t >= 0,
            x < t * q,
            t > 0,
    ;
}

/// With `q = 2^s * t`, the exact encoding of `m` is `m * 2^s`.
proof fn lemma_pow2_scale_encode(t: nat, q: nat, s: nat, m: nat)
    requires
        s > 0,
        s * t == q,
        2 <= t,
        m < t,
    ensures
        encode_spec(t, q, m) == m * s,
        m * s < q,
{
    assert(m * q == (m * s) * t) by (nonlinear_arith)
        requires
            s * t == q,
    ;
    lemma_div_mul_plus_small(m * s, t, t / 2);
    assert(m * s < q) by (nonlinear_arith)
        requires
            s * t == q,
            m < t,
            s > 0,
    ;
}

/// With `q = 2^s * t`, the rounded factor is `2^s` and needs no reduction.
proof fn lemma_pow2_scale_delta(t: nat, q: nat, s: nat, m: nat)
    requires
        s > 0,
        s * t == q,
        2 <= t,
        m < t,
    ensures
        delta_encode_spec(t, q, m) == m * s,
        m * s < q,
{
    lemma_pow2_scale_encode(t, q, s, m);
    assert(q == s * t);
    lemma_div_mul_plus_small(s, t, t / 2);
    assert(delta_spec(t, q) == s);
    lemma_small_mod(m * s, q);
}

/// The pre-reduction quotient of decoding never exceeds `t`.
proof fn lemma_round_quotient_bound(e: nat, t: nat, q: nat)
    requires
        e < q,
        t > 0,
    ensures
        (e * t + q / 2) / q <= t,
{
    let x = e * t + q / 2;
    assert(x < q * (t + 1)) by (nonlinear_arith)
        requires
            e < q,
            x == e * t + q / 2,
            t > 0,
    ;
    lemma_fundamental_div_mod(x as int, q as int);
    lemma_mod_bound(x as int, q as int);
    assert(x / q <= t) by (nonlinear_arith)
        requires
            x == q * (x / q) + x % q,
            x % q >= 0,
            x < q * (t + 1),
            q > 0,
    ;
}

/// Shift-based decoding of the power-of-two strategies.
proof fn lemma_pow2_decode(t: nat, q: nat, es: nat, e: nat)
    requires
        2 <= es < 128,
        pow2(es) * t == q,
        t >= 2,
    ensures
        ((e / pow2((es - 1) as nat) + 1) / 2) % t == decode_spec(t, q, e),
{
    let a = pow2((es - 1) as nat);
    let s = pow2(es);
    lemma_pow2_unfold(es);
    assert(s == 2 * a);
    lemma_pow2_pos((es - 1) as nat);
    // e / a + 1 == (e + a) / a
    lemma_fundamental_div_mod(e as int, a as int);
    lemma_mod_bound(e as int, a as int);
    assert(e + a == a * (e / a + 1) + e % a) by (nonlinear_arith)
        requires
            e == a * (e / a) + e % a,
    ;
    lemma_div_multiples_vanish_fancy((e / a + 1) as int, (e % a) as int, a as int);
    // ((e + a) / a) / 2 == (e + a) / (2a)
    lemma_div_denominator((e + a) as int, a as int, 2);
    lemma_mul_is_commutative(a as int, 2);
    // e * t + q / 2 == t * (e + a) and q == t * s
    assert(q == t * s) by {
        lemma_mul_is_commutative(s as int, t as int);
    }
    assert(q / 2 == t * a) by {
        lemma_mul_is_associative(t as int, 2, a as int);
        lemma_mul_is_commutative(t as int, 2);
        lemma_mul_is_associative(2, t as int, a as int);
        lemma_div_multiples_vanish((t * a) as int, 2);
    }
    assert(e * t + q / 2 == t * (e + a)) by {
        lemma_mul_is_commutative(e as int, t as int);
        lemma_mul_is_distributive_add(t as int, e as int, a as int);
    }
    lemma_div_cancel_common(e + a, t, s);
}

} // verus!
