//! Backend-neutral TFHE parameters, client keys, ciphertexts, the modulus
//! switching of blind rotation and its schedule.
pub mod blind_rotation;
pub mod client;
pub mod evaluator;
pub mod key;
pub mod rotation_plan;

pub use crate::parameter::tfhe::{PbsOrder, TfheParameterError, TfheParameters};
pub use blind_rotation::{direct_exponent, explicit_modulus_switch, modulus_switch, native_modulus_switch};
pub use key::{ClientKey, GlweSecretKey, LweSecretKey, LweSecretKeyRef, TfheKeyError};
pub use client::{Ciphertext, Decryptor, Encryptor, TfheClientError};
pub use evaluator::TfheEvaluationError;
