//! Encoding messages and adding them onto existing coefficients.
use crate::plaintext::{embed_spec, PlaintextCodec, PlaintextEmbedding};
use crate::word::FheUint;
use vstd::prelude::*;

verus! {

/// `(a + b) mod q`.
pub open spec fn add_mod_spec(a: nat, b: nat, q: nat) -> nat {
    (a + b) % q
}

impl<T: FheUint> PlaintextCodec<T> {
    /// Adds the encoding of one message onto one canonical coefficient.
    fn add_encode_one(&self, accumulator: T, message: u128, embedding: PlaintextEmbedding, with_delta: bool) -> (r: T)
        requires
            accumulator.nat_value() < self.modulus_spec(),
            message < self.t_spec(),
        ensures
            r.nat_value() == add_mod_spec(
                accumulator.nat_value(),
                embed_spec(self.t_spec(), self.modulus_spec(), message as nat, embedding, with_delta),
                self.modulus_spec(),
            ),
            r.nat_value() < self.modulus_spec(),
    {
        let _ = self.t();
        let encoded = self.encode_one(message, embedding, with_delta);
        let sum = self.add(accumulator.to_u128(), encoded);
        T::from_u128(sum)
    }

    /// Encodes `message` and modular-adds it into `accumulator`.
    pub fn add_encode_value(&self, accumulator: &mut T, message: T, embedding: PlaintextEmbedding)
        requires
            old(accumulator).nat_value() < self.modulus_spec(),
            message.nat_value() < self.t_spec(),
        ensures
            final(accumulator).nat_value() == add_mod_spec(
                old(accumulator).nat_value(),
                embed_spec(self.t_spec(), self.modulus_spec(), message.nat_value(), embedding, false),
                self.modulus_spec(),
            ),
    {
        let _ = self.t();
        *accumulator = self.add_encode_one(*accumulator, message.to_u128(), embedding, false);
    }

    /// Encodes each message and modular-adds it into the accumulator element
    /// at the same position.
    pub fn add_encode_slice_assign(&self, accumulator: &mut [T], messages: &[T], embedding: PlaintextEmbedding)
        requires
            old(accumulator)@.len() == messages@.len(),
            forall|i: int|
                0 <= i < messages@.len() ==> (#[trigger] old(accumulator)@[i]).nat_value() < self.modulus_spec(),
            forall|i: int| 0 <= i < messages@.len() ==> (#[trigger] messages@[i]).nat_value() < self.t_spec(),
        ensures
            final(accumulator)@.len() == messages@.len(),
            forall|i: int|
                0 <= i < messages@.len() ==> (#[trigger] final(accumulator)@[i]).nat_value() == add_mod_spec(
                    old(accumulator)@[i].nat_value(),
                    embed_spec(self.t_spec(), self.modulus_spec(), messages@[i].nat_value(), embedding, false),
                    self.modulus_spec(),
                ),
    {
        self.add_encode_slice(accumulator, messages, embedding, false)
    }

    /// Batch version of [`PlaintextCodec::encode_value_with_delta`] that
    /// modular-adds each encoding into the accumulator element at the same
    /// position.
    pub fn add_encode_slice_assign_with_delta(&self, accumulator: &mut [T], messages: &[T], embedding: PlaintextEmbedding)
        requires
            old(accumulator)@.len() == messages@.len(),
            forall|i: int|
                0 <= i < messages@.len() ==> (#[trigger] old(accumulator)@[i]).nat_value() < self.modulus_spec(),
            forall|i: int| 0 <= i < messages@.len() ==> (#[trigger] messages@[i]).nat_value() < self.t_spec(),
        ensures
            final(accumulator)@.len() == messages@.len(),
            forall|i: int|
                0 <= i < messages@.len() ==> (#[trigger] final(accumulator)@[i]).nat_value() == add_mod_spec(
                    old(accumulator)@[i].nat_value(),
                    embed_spec(self.t_spec(), self.modulus_spec(), messages@[i].nat_value(), embedding, true),
                    self.modulus_spec(),
                ),
    {
        self.add_encode_slice(accumulator, messages, embedding, true)
    }

    fn add_encode_slice(&self, accumulator: &mut [T], messages: &[T], embedding: PlaintextEmbedding, with_delta: bool)
        requires
            old(accumulator)@.len() == messages@.len(),
            forall|i: int|
                0 <= i < messages@.len() ==> (#[trigger] old(accumulator)@[i]).nat_value() < self.modulus_spec(),
            forall|i: int| 0 <= i < messages@.len() ==> (#[trigger] messages@[i]).nat_value() < self.t_spec(),
        ensures
            final(accumulator)@.len() == messages@.len(),
            forall|i: int|
                0 <= i < messages@.len() ==> (#[trigger] final(accumulator)@[i]).nat_value() == add_mod_spec(
                    old(accumulator)@[i].nat_value(),
                    embed_spec(self.t_spec(), self.modulus_spec(), messages@[i].nat_value(), embedding, with_delta),
                    self.modulus_spec(),
                ),
    {
        let n = messages.len();
        let ghost original = accumulator@;
        let mut i: usize = 0;
        while i < n
            invariant
                n == messages@.len(),
                n == original.len(),
                accumulator@.len() == n,
                i <= n,
                forall|k: int| 0 <= k < n ==> (#[trigger] original[k]).nat_value() < self.modulus_spec(),
                forall|k: int| 0 <= k < n ==> (#[trigger] messages@[k]).nat_value() < self.t_spec(),
                forall|k: int| i <= k < n ==> accumulator@[k] == original[k],
                forall|k: int|
                    0 <= k < i ==> (#[trigger] accumulator@[k]).nat_value() == add_mod_spec(
                        original[k].nat_value(),
                        embed_spec(self.t_spec(), self.modulus_spec(), messages@[k].nat_value(), embedding, with_delta),
                        self.modulus_spec(),
                    ),
            decreases n - i,
        {
            assert(accumulator@[i as int] == original[i as int]);
            let _ = self.t();
            let updated = self.add_encode_one(accumulator[i], messages[i].to_u128(), embedding, with_delta);
            accumulator[i] = updated;
            i = i + 1;
        }
    }
}

} // verus!
