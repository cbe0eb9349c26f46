//! Core arithmetic, parameter validation and encoding logic for
//! lattice-based homomorphic encryption (LWE / GLWE / TFHE).
pub mod arith;
pub mod ciphertext;
pub mod glwe;
pub mod lwe;
pub mod modular;
pub mod parameter;
pub mod plaintext;
pub mod secret_key_type;
pub mod tfhe;
pub mod word;
