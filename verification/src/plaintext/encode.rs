//! Encoding messages into ciphertext coefficients.
use crate::plaintext::{centered_half_spec, embed_spec, PlaintextCodec, PlaintextEmbedding};
use crate::word::{word_modulus, FheUint};
use vstd::prelude::*;

verus! {

/// Splits a message `m < t` into a magnitude and a sign: messages in the
/// upper half `[half, t)` stand for `-(t - m)`.
pub fn lift_centered_from_raw(message: u128, t: u128, centered_half: u128) -> (r: (u128, bool))
    requires
        message < t,
        centered_half == centered_half_spec(t as nat),
        t >= 2,
    ensures
        r.1 == (message >= centered_half),
        r.1 ==> r.0 == t - message,
        !r.1 ==> r.0 == message,
        r.0 < t,
{
    if message >= centered_half {
        (t - message, true)
    } else {
        (message, false)
    }
}

impl<T: FheUint> PlaintextCodec<T> {
    /// Encodes one message `m < t` under `embedding`, exactly rounded or by
    /// the rounded factor `delta`.
    pub(crate) fn encode_one(&self, message: u128, embedding: PlaintextEmbedding, with_delta: bool) -> (r: u128)
        requires
            message < self.t_spec(),
        ensures
            r == embed_spec(self.t_spec(), self.modulus_spec(), message as nat, embedding, with_delta),
            r < self.modulus_spec(),
            r < word_modulus::<T>(),
    {
        let t = self.t().to_u128();
        let (magnitude, is_negative) = match embedding {
            PlaintextEmbedding::Unsigned => (message, false),
            PlaintextEmbedding::Centered => lift_centered_from_raw(message, t, self.centered_half_u128()),
        };
        let encoded = if with_delta {
            self.encode_delta(magnitude)
        } else {
            self.encode_exact(magnitude)
        };
        if is_negative {
            self.neg(encoded)
        } else {
            encoded
        }
    }

    /// Encodes `message` as `round(lift(message) * q / t) mod q`.
    pub fn encode_value(&self, message: T, embedding: PlaintextEmbedding) -> (r: T)
        requires
            message.nat_value() < self.t_spec(),
        ensures
            r.nat_value() == embed_spec(self.t_spec(), self.modulus_spec(), message.nat_value(), embedding, false),
    {
        let r = self.encode_one(message.to_u128(), embedding, false);
        T::from_u128(r)
    }

    /// Encodes `message` as `lift(message) * delta mod q`.
    pub fn encode_value_with_delta(&self, message: T, embedding: PlaintextEmbedding) -> (r: T)
        requires
            message.nat_value() < self.t_spec(),
        ensures
            r.nat_value() == embed_spec(self.t_spec(), self.modulus_spec(), message.nat_value(), embedding, true),
    {
        let r = self.encode_one(message.to_u128(), embedding, true);
        T::from_u128(r)
    }

    /// Encodes each message of `messages` into the same position of `output`.
    pub fn encode_slice_to(&self, messages: &[T], output: &mut [T], embedding: PlaintextEmbedding)
        requires
            messages@.len() == old(output)@.len(),
            forall|i: int| 0 <= i < messages@.len() ==> (#[trigger] messages@[i]).nat_value() < self.t_spec(),
        ensures
            final(output)@.len() == messages@.len(),
            forall|i: int|
                0 <= i < messages@.len() ==> (#[trigger] final(output)@[i]).nat_value() == embed_spec(
                    self.t_spec(),
                    self.modulus_spec(),
                    messages@[i].nat_value(),
                    embedding,
                    false,
                ),
    {
        let n = messages.len();
        let mut i: usize = 0;
        while i < n
            invariant
                n == messages@.len(),
                output@.len() == n,
                i <= n,
                forall|k: int| 0 <= k < n ==> (#[trigger] messages@[k]).nat_value() < self.t_spec(),
                forall|k: int|
                    0 <= k < i ==> (#[trigger] output@[k]).nat_value() == embed_spec(
                        self.t_spec(),
                        self.modulus_spec(),
                        messages@[k].nat_value(),
                        embedding,
                        false,
                    ),
            decreases n - i,
        {
            let encoded = self.encode_value(messages[i], embedding);
            output[i] = encoded;
            i = i + 1;
        }
    }

    /// Encodes every value of `values` in place.
    pub fn encode_slice_inplace(&self, values: &mut [T], embedding: PlaintextEmbedding)
        requires
            forall|i: int| 0 <= i < old(values)@.len() ==> (#[trigger] old(values)@[i]).nat_value() < self.t_spec(),
        ensures
            final(values)@.len() == old(values)@.len(),
            forall|i: int|
                0 <= i < old(values)@.len() ==> (#[trigger] final(values)@[i]).nat_value() == embed_spec(
                    self.t_spec(),
                    self.modulus_spec(),
                    old(values)@[i].nat_value(),
                    embedding,
                    false,
                ),
    {
        let n = values.len();
        let ghost before = values@;
        let mut i: usize = 0;
        while i < n
            invariant
                n == before.len(),
                values@.len() == n,
                i <= n,
                forall|k: int| 0 <= k < n ==> (#[trigger] before[k]).nat_value() < self.t_spec(),
                forall|k: int| i <= k < n ==> values@[k] == before[k],
                forall|k: int|
                    0 <= k < i ==> (#[trigger] values@[k]).nat_value() == embed_spec(
                        self.t_spec(),
                        self.modulus_spec(),
                        before[k].nat_value(),
                        embedding,
                        false,
                    ),
            decreases n - i,
        {
            assert(values@[i as int] == before[i as int]);
            let encoded = self.encode_value(values[i], embedding);
            values[i] = encoded;
            i = i + 1;
        }
    }
}

} // verus!
