//! GLWE, GLev, LWE and TFHE parameter types.
pub mod common_size;
pub mod glwe;
pub mod lwe;
pub mod tfhe;

pub use common_size::{GlevCommonSize, GlweCommonSize};
pub use glwe::{
    GadgetBasis, GgswParameters, GlevParameters, GlweKeySwitchingParameters, GlweParameters,
    GlweParametersInner,
};
pub use lwe::LweParameters;
pub use tfhe::{PbsOrder, TfheParameterError, TfheParameterParts, TfheParameters};
