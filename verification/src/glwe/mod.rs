//! GLWE operations whose logic is independent of polynomial arithmetic:
//! NTT-domain automorphism permutations, `QP`-basis layouts, CRT-domain
//! secret keys and their extension to further moduli, encryption messages
//! and errors.
pub mod automorphism;
pub mod crt_key;
pub mod error;
pub mod extend;
pub mod layout;
pub mod message;

pub use error::GlweSecretKeyError;
