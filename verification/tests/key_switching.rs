use primus_fhe_core::ciphertext::LweCiphertext;
use primus_fhe_core::lwe::assemble_lwe_key_switching_key;

#[test]
fn key_switching_entries_raise_each_body_by_secret_times_scalar() {
    let samples = vec![
        LweCiphertext(vec![3u32, 5]),
        LweCiphertext(vec![6u32, 7]),
        LweCiphertext(vec![8u32, 0]),
        LweCiphertext(vec![9u32, 2]),
    ];
    // secret (1, -1), scalars (1, 4), q = 17
    let data = assemble_lwe_key_switching_key::<u32>(&[1, -1], &[1, 4], samples, 1, 17);
    assert_eq!(data, vec![3, 6, 6, 11, 8, 16, 9, 15]);
}

#[test]
fn key_switching_key_over_the_native_modulus() {
    let samples = vec![LweCiphertext(vec![1u64, 2, u64::MAX]), LweCiphertext(vec![4u64, 5, 6])];
    let data = assemble_lwe_key_switching_key::<u64>(&[-1], &[1, 1 << 63], samples, 2, 1u128 << 64);
    assert_eq!(data, vec![1, 2, u64::MAX - 1, 4, 5, 6u64.wrapping_sub(1 << 63)]);
}
