use primus_fhe_core::parameter::{GlevCommonSize, GlweCommonSize};
use primus_fhe_core::parameter::tfhe::div_ceil;

#[test]
fn glwe_common_size_constants() {
    let s = GlweCommonSize::new(2, 8);
    assert_eq!(s.dimension(), 2);
    assert_eq!(s.poly_length(), 8);
    assert_eq!(s.glwe_mid(), 16);
    assert_eq!(s.glwe_len(), 24);
    assert_eq!(s.secret_key_len(), 16);
    assert_eq!(s.fourier_glwe_mid(), 8);
    assert_eq!(s.fourier_glwe_len(), 12);
}

#[test]
fn glev_common_size_constants() {
    let g = GlevCommonSize::new(GlweCommonSize::new(2, 8), 3);
    assert_eq!(g.glwe_common_size(), GlweCommonSize::new(2, 8));
    assert_eq!(g.dimension(), 2);
    assert_eq!(g.poly_length(), 8);
    assert_eq!(g.glwe_mid(), 16);
    assert_eq!(g.glwe_len(), 24);
    assert_eq!(g.secret_key_len(), 16);
    assert_eq!(g.fourier_glwe_mid(), 8);
    assert_eq!(g.fourier_glwe_len(), 12);
    assert_eq!(g.decompose_length(), 3);
    assert_eq!(g.glev_len(), 72);
    assert_eq!(g.ggsw_len(), 216);
    assert_eq!(g.fourier_glev_len(), 36);
    assert_eq!(g.fourier_ggsw_len(), 108);
}

#[test]
fn div_ceil_rounds_up() {
    assert_eq!(div_ceil(10, 4), 3);
    assert_eq!(div_ceil(12, 4), 3);
    assert_eq!(div_ceil(0, 4), 0);
    assert_eq!(div_ceil(usize::MAX, 2), usize::MAX / 2 + 1);
}
