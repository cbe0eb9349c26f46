//! Decoding ciphertext coefficients back into messages.
use crate::plaintext::{decode_spec, PlaintextCodec};
use crate::word::FheUint;
use vstd::prelude::*;

verus! {

impl<T: FheUint> PlaintextCodec<T> {
    /// Decodes one canonical ciphertext coefficient into `round(value * t / q) mod t`.
    pub fn decode_value(&self, value: T) -> (r: T)
        requires
            value.nat_value() < self.modulus_spec(),
        ensures
            r.nat_value() == decode_spec(self.t_spec(), self.modulus_spec(), value.nat_value()),
            r.nat_value() < self.t_spec(),
    {
        let _ = self.t();
        let decoded = self.decode_raw(value.to_u128());
        T::from_u128(decoded)
    }

    /// Decodes all values in place.
    pub fn decode_slice_inplace(&self, values: &mut [T])
        requires
            forall|i: int|
                0 <= i < old(values)@.len() ==> (#[trigger] old(values)@[i]).nat_value() < self.modulus_spec(),
        ensures
            final(values)@.len() == old(values)@.len(),
            forall|i: int|
                0 <= i < old(values)@.len() ==> (#[trigger] final(values)@[i]).nat_value() == decode_spec(
                    self.t_spec(),
                    self.modulus_spec(),
                    old(values)@[i].nat_value(),
                ),
    {
        let n = values.len();
        let ghost before = values@;
        let mut i: usize = 0;
        while i < n
            invariant
                n == before.len(),
                values@.len() == n,
                i <= n,
                forall|k: int| 0 <= k < n ==> (#[trigger] before[k]).nat_value() < self.modulus_spec(),
                forall|k: int| i <= k < n ==> values@[k] == before[k],
                forall|k: int|
                    0 <= k < i ==> (#[trigger] values@[k]).nat_value() == decode_spec(
                        self.t_spec(),
                        self.modulus_spec(),
                        before[k].nat_value(),
                    ),
            decreases n - i,
        {
            assert(values@[i as int] == before[i as int]);
            let decoded = self.decode_value(values[i]);
            values[i] = decoded;
            i = i + 1;
        }
    }

    /// Decodes `input` into `output`.
    pub fn decode_slice_to(&self, input: &[T], output: &mut [T])
        requires
            input@.len() == old(output)@.len(),
            forall|i: int| 0 <= i < input@.len() ==> (#[trigger] input@[i]).nat_value() < self.modulus_spec(),
        ensures
            final(output)@.len() == input@.len(),
            forall|i: int|
                0 <= i < input@.len() ==> (#[trigger] final(output)@[i]).nat_value() == decode_spec(
                    self.t_spec(),
                    self.modulus_spec(),
                    input@[i].nat_value(),
                ),
    {
        let n = input.len();
        let mut i: usize = 0;
        while i < n
            invariant
                n == input@.len(),
                output@.len() == n,
                i <= n,
                forall|k: int| 0 <= k < n ==> (#[trigger] input@[k]).nat_value() < self.modulus_spec(),
                forall|k: int|
                    0 <= k < i ==> (#[trigger] output@[k]).nat_value() == decode_spec(
                        self.t_spec(),
                        self.modulus_spec(),
                        input@[k].nat_value(),
                    ),
            decreases n - i,
        {
            let decoded = self.decode_value(input[i]);
            output[i] = decoded;
            i = i + 1;
        }
    }
}

} // verus!
