use primus_fhe_core::tfhe::{explicit_modulus_switch, modulus_switch, native_modulus_switch};

#[test]
fn native_modulus_switch_rounds_half_up_and_wraps() {
    assert_eq!(native_modulus_switch(0u32, 8), 0);
    assert_eq!(native_modulus_switch(1u32 << 28, 8), 1);
    assert_eq!(native_modulus_switch((1u32 << 29) - 1, 8), 1);
    assert_eq!(native_modulus_switch(1u32 << 29, 8), 1);
    assert_eq!(native_modulus_switch(u32::MAX, 8), 0);
}

#[test]
fn explicit_modulus_switch_matches_integer_oracle() {
    const Q: u32 = 132_120_577;
    for value in [0, 1, Q / 8, Q / 2, Q - 1] {
        let oracle = ((value as u64 * 8 + (Q / 2) as u64) / Q as u64) as usize & 7;
        assert_eq!(explicit_modulus_switch(value, Q, 8), oracle);
    }
}

#[test]
fn native_modulus_switch_u64_rounds_to_nearest_exponent() {
    // 2N = 1024, scale = 2^54
    assert_eq!(native_modulus_switch(3u64 << 54, 1024), 3);
    assert_eq!(native_modulus_switch((3u64 << 54) + (1u64 << 53), 1024), 4);
    assert_eq!(native_modulus_switch((3u64 << 54) + (1u64 << 53) - 1, 1024), 3);
    assert_eq!(native_modulus_switch(u64::MAX, 1024), 0);
}

#[test]
fn native_modulus_switch_full_width_is_identity() {
    assert_eq!(native_modulus_switch(12345u32, 1usize << 32), 12345);
}

#[test]
fn modulus_switch_dispatches_on_modulus() {
    // explicit modulus equal to 2N: coefficients already are exponents
    assert_eq!(modulus_switch(5u64, Some(8u64), 8), 5);
    // explicit modulus: round(7 * 8 / 17) = round(3.29) = 3
    assert_eq!(modulus_switch(7u64, Some(17u64), 8), 3);
    // native modulus
    assert_eq!(modulus_switch(1u32 << 29, None, 8), 1);
}
