use primus_fhe_core::glwe::automorphism::{generate_ntt_permutation, reverse_lsbs, NttAutoHelper};

#[test]
fn reverse_lsbs_reverses_low_bits() {
    assert_eq!(reverse_lsbs(0b011, 3), 0b110);
    assert_eq!(reverse_lsbs(0b001, 3), 0b100);
    assert_eq!(reverse_lsbs(5, 0), 0);
    assert_eq!(reverse_lsbs(1, 10), 512);
}

#[test]
fn permutation_of_x_to_x_cubed() {
    // N = 4: evaluation points w^1, w^3, w^5, w^7 in bit-reversed storage
    assert_eq!(generate_ntt_permutation(3, 4), vec![2u32, 3, 0, 1]);
    // x -> x^(2N - 1) = x^7 pairs each point with its inverse
    assert_eq!(generate_ntt_permutation(7, 4), vec![3u32, 2, 1, 0]);
}

#[test]
fn permutation_is_a_bijection() {
    for degree in [3usize, 5, 7, 9, 31] {
        let mut perm = generate_ntt_permutation(degree, 16);
        perm.sort();
        assert_eq!(perm, (0..16u32).collect::<Vec<_>>());
    }
}

#[test]
fn helper_applies_the_permutation() {
    let h = NttAutoHelper::new(3, 4);
    assert_eq!(h.poly_length(), 4);
    let mut out = vec![0u64; 4];
    h.ntt_poly_auto_inplace(&[10u64, 11, 12, 13], &mut out);
    assert_eq!(out, vec![12, 13, 10, 11]);
    let mut dcrt = vec![0u64; 8];
    h.dcrt_poly_ntt_auto_to(&[10u64, 11, 12, 13, 20, 21, 22, 23], &mut dcrt);
    assert_eq!(dcrt, vec![12, 13, 10, 11, 22, 23, 20, 21]);
}

#[test]
fn degree_one_is_the_identity() {
    let h = NttAutoHelper::new(1, 8);
    let poly: Vec<u32> = (0..8).collect();
    let mut out = vec![0u32; 8];
    h.ntt_poly_auto_inplace(&poly, &mut out);
    assert_eq!(out, poly);
}
