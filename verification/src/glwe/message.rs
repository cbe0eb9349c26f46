//! The message handed to a Fourier-domain GLWE encryption.
use crate::plaintext::PlaintextEmbedding;
use vstd::prelude::*;

verus! {

/// What a Fourier-domain GLWE encryption adds to its noise polynomial.
pub enum FourierEncryptionMessage<'a, T> {
    /// Nothing: an encryption of zero.
    Zero,
    /// A plaintext polynomial, encoded with the given embedding.
    Plaintext(&'a [T], PlaintextEmbedding),
    /// An already encoded polynomial, added as it is.
    Encoded(&'a [T]),
}

impl<'a, T> FourierEncryptionMessage<'a, T> {
    /// The message polynomial, if there is one.
    pub fn as_slice(&self) -> (r: Option<&'a [T]>)
        ensures
            match *self {
                FourierEncryptionMessage::Zero => r is None,
                FourierEncryptionMessage::Plaintext(m, _) => r == Some(m),
                FourierEncryptionMessage::Encoded(m) => r == Some(m),
            },
    {
        match self {
            FourierEncryptionMessage::Zero => None,
            FourierEncryptionMessage::Plaintext(message, _) => Some(*message),
            FourierEncryptionMessage::Encoded(message) => Some(*message),
        }
    }
}

} // verus!
