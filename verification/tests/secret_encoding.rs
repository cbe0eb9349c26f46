use primus_fhe_core::secret_key_type::{f64_bits_equal, SecretKeyDistr};
use primus_fhe_core::glwe::extend::{extend_limb_to_modulus, extend_residue_to_modulus};
use primus_fhe_core::secret_key_type::{
    encode_secret_coefficient, encode_secret_polynomial_to, encode_secret_polynomial_to_rns,
    LweSecretKeyType, RingSecretKeyType,
};

#[test]
fn secret_coefficients_map_to_residues() {
    assert_eq!(encode_secret_coefficient::<u32>(-1, 17), 16);
    assert_eq!(encode_secret_coefficient::<u32>(1, 17), 1);
    assert_eq!(encode_secret_coefficient::<u64>(0, 17), 0);
    assert_eq!(encode_secret_coefficient::<u64>(-3, 1 << 40), (1 << 40) - 3);
}

#[test]
fn secret_polynomials_are_encoded_per_limb() {
    let mut out = vec![0u32; 3];
    encode_secret_polynomial_to::<u32>(&[1, -1, 0], &mut out, 17);
    assert_eq!(out, vec![1, 16, 0]);
    let mut rns = vec![0u32; 6];
    encode_secret_polynomial_to_rns::<u32>(&[1, -1, 0], &mut rns, &[17, 97]);
    assert_eq!(rns, vec![1, 16, 0, 1, 96, 0]);
}

#[test]
fn default_key_types() {
    assert_eq!(LweSecretKeyType::default_type(), LweSecretKeyType::Ternary);
    assert_eq!(RingSecretKeyType::default_type(), RingSecretKeyType::Ternary);
}

#[test]
fn residues_extend_to_other_moduli() {
    // 16 = -1 (mod 17) becomes 96 = -1 (mod 97)
    assert_eq!(extend_residue_to_modulus(16u32, 17, 97), 96);
    assert_eq!(extend_residue_to_modulus(1u32, 17, 97), 1);
    // 9 = (17 + 1) / 2 still reads as positive
    assert_eq!(extend_residue_to_modulus(9u32, 17, 5), 4);
    // a large negative value wraps in word arithmetic
    assert_eq!(extend_residue_to_modulus(10u32, 17, 3), u32::MAX - 3);
    let mut out = vec![0u64; 4];
    extend_limb_to_modulus(&[0u64, 1, 16, 15], 17, 97, &mut out);
    assert_eq!(out, vec![0, 1, 96, 95]);
}

#[test]
fn gaussian_deviations_compare_as_doubles() {
    let g = |x: f64| RingSecretKeyType::Gaussian(x.to_bits());
    assert_eq!(g(3.2), g(3.2));
    assert_eq!(g(0.0), g(-0.0));
    assert_ne!(g(f64::NAN), g(f64::NAN));
    assert_ne!(g(1.0), g(2.0));
    assert_ne!(RingSecretKeyType::Binary, RingSecretKeyType::Ternary);
    assert!(f64_bits_equal(0.0f64.to_bits(), (-0.0f64).to_bits()));
    assert!(!f64_bits_equal(f64::NAN.to_bits(), f64::NAN.to_bits()));
    assert!(f64_bits_equal(f64::INFINITY.to_bits(), f64::INFINITY.to_bits()));
    let d = |x: f64| SecretKeyDistr::Gaussian(x.to_bits());
    assert_eq!(d(0.0), d(-0.0));
    assert_ne!(d(f64::NAN), d(f64::NAN));
}
