use primus_fhe_core::tfhe::client::{message_to_word, plaintext_to_width};
use primus_fhe_core::tfhe::client::{lwe_dot, lwe_phase, zero_sample_from};
use primus_fhe_core::ciphertext::LweCiphertext;
use primus_fhe_core::parameter::{
    GadgetBasis, GlevParameters, GlweCommonSize, GlweKeySwitchingParameters, GlweParameters,
    LweParameters, PbsOrder, TfheParameterError, TfheParameters,
};
use primus_fhe_core::secret_key_type::{LweSecretKeyType, RingSecretKeyType};
use primus_fhe_core::tfhe::{
    Ciphertext, ClientKey, Decryptor, Encryptor, GlweSecretKey, LweSecretKey, TfheClientError,
    TfheKeyError,
};

fn lwe_params(dimension: usize, distr: LweSecretKeyType) -> LweParameters<u32> {
    LweParameters::new(dimension, 4u32, None, distr, 0)
}

fn glwe_params(dimension: usize) -> GlweParameters<u32> {
    GlweParameters::new(dimension, 4, 4u32, None, RingSecretKeyType::Binary, 0)
}

fn key_switching(input_dimension: usize, output_dimension: usize) -> GlweKeySwitchingParameters<u32> {
    let output = glwe_params(output_dimension);
    GlweKeySwitchingParameters::new(
        input_dimension,
        GlevParameters::with_glwe_params(&output, GadgetBasis::new(None, 4, 3)),
    )
}

fn parameters(order: PbsOrder) -> TfheParameters<u32> {
    let glwe = glwe_params(1);
    let bootstrapping = GlevParameters::with_glwe_params(&glwe, GadgetBasis::new(None, 8, 2));
    TfheParameters::try_new(
        lwe_params(4, LweSecretKeyType::Binary),
        glwe,
        bootstrapping,
        key_switching(1, 1),
        order,
    )
    .unwrap()
}

fn client_key(order: PbsOrder) -> ClientKey<u32> {
    let lwe = LweSecretKey::new(vec![1i32, 0, 1, 1], LweSecretKeyType::Binary);
    let glwe = GlweSecretKey::new(
        vec![0i32, 1, 1, 0],
        GlweCommonSize::new(1, 4),
        RingSecretKeyType::Binary,
    );
    ClientKey::new(lwe, glwe, order)
}

/// An encryption of zero under `secret` with noise `e`.
fn zero_sample(a: [u32; 4], secret: [u32; 4], e: u32) -> LweCiphertext<u32> {
    let mut b = e;
    for i in 0..4 {
        b = b.wrapping_add(a[i].wrapping_mul(secret[i]));
    }
    let mut ct = a.to_vec();
    ct.push(b);
    LweCiphertext(ct)
}

#[test]
fn try_new_accepts_consistent_parameters() {
    let p = parameters(PbsOrder::BootstrapKeyswitch);
    assert_eq!(p.ciphertext_lwe_dimension(), 4);
    assert_eq!(p.blind_rotation_input_dimension(), 4);
    assert_eq!(p.plain_modulus_value(), 4);
    let q = parameters(PbsOrder::KeyswitchBootstrap);
    assert_eq!(q.ciphertext_lwe_dimension(), 4);
}

#[test]
fn try_new_rejects_non_binary_input_key() {
    let glwe = glwe_params(1);
    let bootstrapping = GlevParameters::with_glwe_params(&glwe, GadgetBasis::new(None, 8, 2));
    let r = TfheParameters::try_new(
        lwe_params(4, LweSecretKeyType::Ternary),
        glwe,
        bootstrapping,
        key_switching(1, 1),
        PbsOrder::BootstrapKeyswitch,
    );
    assert_eq!(r.unwrap_err(), TfheParameterError::InputLweSecretKeyMustBeBinary);
}

#[test]
fn try_new_rejects_small_key_beyond_capacity() {
    let glwe = glwe_params(1);
    let bootstrapping = GlevParameters::with_glwe_params(&glwe, GadgetBasis::new(None, 8, 2));
    let r = TfheParameters::try_new(
        lwe_params(5, LweSecretKeyType::Binary),
        glwe,
        bootstrapping,
        key_switching(1, 2),
        PbsOrder::BootstrapKeyswitch,
    );
    assert_eq!(
        r.unwrap_err(),
        TfheParameterError::SmallLweDimensionExceedsGlweCapacity {
            small_lwe_dimension: 5,
            capacity: 4
        }
    );
}

#[test]
fn try_new_rejects_wrong_key_switching_dimensions() {
    let glwe = glwe_params(1);
    let bootstrapping = GlevParameters::with_glwe_params(&glwe, GadgetBasis::new(None, 8, 2));
    let r = TfheParameters::try_new(
        lwe_params(4, LweSecretKeyType::Binary),
        glwe,
        bootstrapping,
        key_switching(2, 1),
        PbsOrder::BootstrapKeyswitch,
    );
    assert_eq!(
        r.unwrap_err(),
        TfheParameterError::GlweKeySwitchingInputDimensionMismatch { expected: 1, actual: 2 }
    );
    let glwe = glwe_params(1);
    let bootstrapping = GlevParameters::with_glwe_params(&glwe, GadgetBasis::new(None, 8, 2));
    let r = TfheParameters::try_new(
        lwe_params(3, LweSecretKeyType::Binary),
        glwe,
        bootstrapping,
        key_switching(1, 2),
        PbsOrder::BootstrapKeyswitch,
    );
    assert_eq!(
        r.unwrap_err(),
        TfheParameterError::GlweKeySwitchingOutputDimensionMismatch { expected: 1, actual: 2 }
    );
}

#[test]
fn try_new_rejects_mismatched_moduli() {
    let glwe = glwe_params(1);
    let bootstrapping = GlevParameters::with_glwe_params(&glwe, GadgetBasis::new(Some(17), 8, 2));
    let r = TfheParameters::try_new(
        lwe_params(4, LweSecretKeyType::Binary),
        glwe,
        bootstrapping,
        key_switching(1, 1),
        PbsOrder::BootstrapKeyswitch,
    );
    assert_eq!(r.unwrap_err(), TfheParameterError::BootstrappingBasisModulusMismatch);
    let glwe = glwe_params(1);
    let bootstrapping = GlevParameters::with_glwe_params(&glwe, GadgetBasis::new(None, 8, 2));
    let r = TfheParameters::try_new(
        LweParameters::new(4, 4u32, Some(1u32 << 20), LweSecretKeyType::Binary, 0),
        glwe,
        bootstrapping,
        key_switching(1, 1),
        PbsOrder::BootstrapKeyswitch,
    );
    assert_eq!(r.unwrap_err(), TfheParameterError::CipherModulusMismatch);
}

#[test]
fn client_key_compatibility_is_checked_in_order() {
    let p = parameters(PbsOrder::BootstrapKeyswitch);
    assert_eq!(client_key(PbsOrder::BootstrapKeyswitch).check_compatible(&p), Ok(()));
    assert_eq!(
        client_key(PbsOrder::KeyswitchBootstrap).check_compatible(&p),
        Err(TfheKeyError::PbsOrderMismatch {
            expected: PbsOrder::BootstrapKeyswitch,
            actual: PbsOrder::KeyswitchBootstrap
        })
    );
    let short = ClientKey::new(
        LweSecretKey::new(vec![1i32, 0, 1], LweSecretKeyType::Binary),
        GlweSecretKey::new(vec![0i32, 1, 1, 0], GlweCommonSize::new(1, 4), RingSecretKeyType::Binary),
        PbsOrder::BootstrapKeyswitch,
    );
    assert_eq!(
        short.check_compatible(&p),
        Err(TfheKeyError::LweDimensionMismatch { expected: 4, actual: 3 })
    );
    let ternary = ClientKey::new(
        LweSecretKey::new(vec![1i32, 0, 1, 1], LweSecretKeyType::Binary),
        GlweSecretKey::new(vec![0i32, 1, -1, 0], GlweCommonSize::new(1, 4), RingSecretKeyType::Ternary),
        PbsOrder::BootstrapKeyswitch,
    );
    assert_eq!(
        ternary.check_compatible(&p),
        Err(TfheKeyError::GlweSecretKeyDistributionMismatch)
    );
    match Decryptor::new(&p, &short) {
        Err(e) => assert_eq!(
            e,
            TfheClientError::IncompatibleKey(TfheKeyError::LweDimensionMismatch {
                expected: 4,
                actual: 3
            })
        ),
        Ok(_) => panic!("an incompatible key was accepted"),
    }
}

#[test]
fn encrypt_then_decrypt_returns_the_message() {
    let p = parameters(PbsOrder::BootstrapKeyswitch);
    let key = client_key(PbsOrder::BootstrapKeyswitch);
    let encryptor = Encryptor::with_client_key(&p, &key).unwrap();
    let decryptor = Decryptor::new(&p, &key).unwrap();
    let a = [0x1234_5678, 0x9abc_def0, 0x0fed_cba9, 0x8765_4321];
    for m in 0..4u32 {
        let ct = encryptor.encrypt(m, zero_sample(a, [1, 0, 1, 1], 5)).unwrap();
        assert_eq!(ct.dimension(), 4);
        assert_eq!(decryptor.decrypt(&ct).unwrap(), m);
        let centered = encryptor
            .encrypt_centered(m, zero_sample(a, [1, 0, 1, 1], 7u32.wrapping_neg()))
            .unwrap();
        assert_eq!(decryptor.decrypt(&centered).unwrap(), m);
    }
    // the body gains exactly m * 2^30
    let ct = encryptor.encrypt(3, zero_sample(a, [1, 0, 1, 1], 0)).unwrap();
    let zero = zero_sample(a, [1, 0, 1, 1], 0);
    assert_eq!(ct.as_lwe().0[4], zero.0[4].wrapping_add(3 << 30));
    assert_eq!(&ct.as_lwe().0[..4], &zero.0[..4]);
}

#[test]
fn keyswitch_bootstrap_order_uses_the_glwe_key() {
    let p = parameters(PbsOrder::KeyswitchBootstrap);
    let key = client_key(PbsOrder::KeyswitchBootstrap);
    let encryptor = Encryptor::with_client_key(&p, &key).unwrap();
    let decryptor = Decryptor::new(&p, &key).unwrap();
    let a = [11, 22, 33, 44];
    let ct = encryptor.encrypt(2, zero_sample(a, [0, 1, 1, 0], 3)).unwrap();
    assert_eq!(decryptor.decrypt(&ct).unwrap(), 2);
    assert_eq!(key.lwe_secret_key().as_slice(), &[0i32, 1, 1, 0][..]);
}

#[test]
fn encryption_rejects_messages_outside_the_domain() {
    let p = parameters(PbsOrder::BootstrapKeyswitch);
    let key = client_key(PbsOrder::BootstrapKeyswitch);
    let encryptor = Encryptor::with_client_key(&p, &key).unwrap();
    let sample = || zero_sample([1, 2, 3, 4], [1, 0, 1, 1], 0);
    assert_eq!(encryptor.encrypt(4, sample()).unwrap_err(), TfheClientError::MessageOutOfRange);
    assert_eq!(
        encryptor.encrypt_padded(2, sample()).unwrap_err(),
        TfheClientError::MessageOutsidePaddedDomain
    );
    assert_eq!(
        encryptor.encrypt_padded(7, sample()).unwrap_err(),
        TfheClientError::MessageOutOfRange
    );
    let decryptor = Decryptor::new(&p, &key).unwrap();
    let ct = encryptor.encrypt_padded(1, sample()).unwrap();
    assert_eq!(decryptor.decrypt(&ct).unwrap(), 1);
}

#[test]
fn imported_ciphertexts_are_checked() {
    assert_eq!(
        Ciphertext::try_from_lwe(LweCiphertext(vec![1u32, 2, 3]), 4).unwrap_err(),
        TfheClientError::CiphertextLengthMismatch { expected: 5, actual: 3 }
    );
    let ct = Ciphertext::try_from_lwe(LweCiphertext(vec![1u32, 2, 3]), 2).unwrap();
    assert_eq!(ct.dimension(), 2);
    assert_eq!(ct.into_lwe().0, vec![1u32, 2, 3]);
    let p = parameters(PbsOrder::BootstrapKeyswitch);
    let key = client_key(PbsOrder::BootstrapKeyswitch);
    let decryptor = Decryptor::new(&p, &key).unwrap();
    let small = Ciphertext::try_from_lwe(LweCiphertext(vec![1u32, 2, 3]), 2).unwrap();
    assert_eq!(
        decryptor.decrypt(&small).unwrap_err(),
        TfheClientError::CiphertextDimensionMismatch { expected: 4, actual: 2 }
    );
}

#[test]
fn zero_samples_carry_the_noise_as_phase() {
    let p = parameters(PbsOrder::BootstrapKeyswitch);
    let key = client_key(PbsOrder::BootstrapKeyswitch);
    let encryptor = Encryptor::with_client_key(&p, &key).unwrap();
    assert_eq!(encryptor.client_modulus(), 1u128 << 32);
    assert_eq!(encryptor.parameters().ciphertext_lwe_dimension(), 4);
    // b = 1 + 3 + 4 + 9 under the key (1, 0, 1, 1)
    let zero = encryptor.zero_sample(vec![1u32, 2, 3, 4], 9);
    assert_eq!(zero.0, vec![1u32, 2, 3, 4, 17]);
    let decryptor = Decryptor::new(&p, &key).unwrap();
    let ct = encryptor.encrypt(1, zero).unwrap();
    assert_eq!(decryptor.decrypt(&ct).unwrap(), 1);
    // explicit modulus 17: b = 5 - 16 + 3 = 9 (mod 17)
    assert_eq!(lwe_dot(&[5u32, 16], &[1i32, -1], 17), 6);
    let z = zero_sample_from(vec![5u32, 16], 3, &[1i32, -1], 17);
    assert_eq!(z.0, vec![5u32, 16, 9]);
    assert_eq!(lwe_phase(&z.0, &[1i32, -1], 17), 3);
}

#[test]
fn glwe_keys_split_into_polynomials() {
    let key = GlweSecretKey::<u32>::new(
        vec![1, 0, -1, 1, 0, 0, 1, 1],
        GlweCommonSize::new(2, 4),
        RingSecretKeyType::Ternary,
    );
    assert_eq!(key.dimension(), 2);
    assert_eq!(key.poly_length(), 4);
    assert_eq!(key.iter(), vec![&[1i32, 0, -1, 1][..], &[0i32, 0, 1, 1][..]]);
}

#[test]
fn ciphertexts_can_be_modified_in_place() {
    let mut ct = Ciphertext::try_from_lwe(LweCiphertext(vec![1u32, 2, 3]), 2).unwrap();
    ct.as_lwe_mut().0[2] = 9;
    assert_eq!(ct.as_lwe().0, vec![1u32, 2, 9]);
}

fn try_with(
    lwe: LweParameters<u32>,
    glwe: GlweParameters<u32>,
    bootstrapping: GlevParameters<u32>,
    ks: GlweKeySwitchingParameters<u32>,
) -> TfheParameterError {
    TfheParameters::try_new(lwe, glwe, bootstrapping, ks, PbsOrder::BootstrapKeyswitch).unwrap_err()
}

#[test]
fn try_new_reports_every_remaining_mismatch() {
    let lwe = || lwe_params(4, LweSecretKeyType::Binary);
    let glwe = || glwe_params(1);
    let bs = |g: &GlweParameters<u32>| GlevParameters::with_glwe_params(g, GadgetBasis::new(None, 8, 2));
    // plaintext moduli differ
    assert_eq!(
        try_with(
            LweParameters::new(4, 8u32, None, LweSecretKeyType::Binary, 0),
            glwe(),
            bs(&glwe()),
            key_switching(1, 1)
        ),
        TfheParameterError::PlainModulusMismatch
    );
    // bootstrapping parameters built from another GLWE shape
    assert_eq!(
        try_with(lwe(), glwe(), bs(&glwe_params(2)), key_switching(1, 1)),
        TfheParameterError::BootstrappingGlweParametersMismatch
    );
    // key-switching output with another polynomial length
    let other_n = GlweParameters::new(1, 8, 4u32, None, RingSecretKeyType::Binary, 0);
    let ks = GlweKeySwitchingParameters::new(
        1,
        GlevParameters::with_glwe_params(&other_n, GadgetBasis::new(None, 4, 3)),
    );
    assert_eq!(
        try_with(lwe(), glwe(), bs(&glwe()), ks),
        TfheParameterError::GlweKeySwitchingPolynomialLengthMismatch { expected: 4, actual: 8 }
    );
    // key-switching output under another ciphertext modulus
    let other_q = GlweParameters::new(1, 4, 4u32, Some(1u32 << 20), RingSecretKeyType::Binary, 0);
    let ks = GlweKeySwitchingParameters::new(
        1,
        GlevParameters::with_glwe_params(&other_q, GadgetBasis::new(Some(1u32 << 20), 4, 3)),
    );
    assert_eq!(
        try_with(lwe(), glwe(), bs(&glwe()), ks),
        TfheParameterError::GlweKeySwitchingCipherModulusMismatch
    );
    // key-switching output key not binary
    let ternary = GlweParameters::new(1, 4, 4u32, None, RingSecretKeyType::Ternary, 0);
    let ks = GlweKeySwitchingParameters::new(
        1,
        GlevParameters::with_glwe_params(&ternary, GadgetBasis::new(None, 4, 3)),
    );
    assert_eq!(
        try_with(lwe(), glwe(), bs(&glwe()), ks),
        TfheParameterError::GlweKeySwitchingOutputSecretKeyMustBeBinary
    );
    // key-switching basis for another modulus
    let ks = GlweKeySwitchingParameters::new(
        1,
        GlevParameters::with_glwe_params(&glwe(), GadgetBasis::new(Some(17), 4, 3)),
    );
    assert_eq!(
        try_with(lwe(), glwe(), bs(&glwe()), ks),
        TfheParameterError::GlweKeySwitchingBasisModulusMismatch
    );
}

#[test]
fn key_compatibility_reports_shape_and_distribution_mismatches() {
    let p = parameters(PbsOrder::BootstrapKeyswitch);
    let glwe_key = || {
        GlweSecretKey::new(vec![0i32, 1, 1, 0], GlweCommonSize::new(1, 4), RingSecretKeyType::Binary)
    };
    let ternary_lwe = ClientKey::new(
        LweSecretKey::new(vec![1i32, 0, -1, 1], LweSecretKeyType::Ternary),
        glwe_key(),
        PbsOrder::BootstrapKeyswitch,
    );
    assert_eq!(
        ternary_lwe.check_compatible(&p),
        Err(TfheKeyError::LweSecretKeyDistributionMismatch)
    );
    let wide = ClientKey::new(
        LweSecretKey::new(vec![1i32, 0, 1, 1], LweSecretKeyType::Binary),
        GlweSecretKey::new(vec![0i32; 8], GlweCommonSize::new(2, 4), RingSecretKeyType::Binary),
        PbsOrder::BootstrapKeyswitch,
    );
    assert_eq!(
        wide.check_compatible(&p),
        Err(TfheKeyError::GlweDimensionMismatch { expected: 1, actual: 2 })
    );
    let long = ClientKey::new(
        LweSecretKey::new(vec![1i32, 0, 1, 1], LweSecretKeyType::Binary),
        GlweSecretKey::new(vec![0i32; 8], GlweCommonSize::new(1, 8), RingSecretKeyType::Binary),
        PbsOrder::BootstrapKeyswitch,
    );
    assert_eq!(
        long.check_compatible(&p),
        Err(TfheKeyError::PolynomialLengthMismatch { expected: 4, actual: 8 })
    );
    let (lwe, glwe, order) = long.into_parts();
    assert_eq!(lwe.dimension(), 4);
    assert_eq!(glwe.poly_length(), 8);
    assert_eq!(order, PbsOrder::BootstrapKeyswitch);
}

#[test]
fn oversized_dimensions_are_rejected() {
    assert_eq!(
        Ciphertext::try_from_lwe(LweCiphertext(vec![1u32]), usize::MAX).unwrap_err(),
        TfheClientError::CiphertextDimensionTooLarge
    );
}

#[test]
fn gaussian_key_types_match_as_doubles() {
    let sd = |x: f64| RingSecretKeyType::Gaussian(x.to_bits());
    let glwe = GlweParameters::new(1, 4, 4u32, None, sd(0.0), 0);
    let bootstrapping = GlevParameters::with_glwe_params(
        &GlweParameters::new(1, 4, 4u32, None, sd(-0.0), (-0.0f64).to_bits()),
        GadgetBasis::new(None, 8, 2),
    );
    let p = TfheParameters::try_new(
        lwe_params(4, LweSecretKeyType::Binary),
        glwe,
        bootstrapping,
        key_switching(1, 1),
        PbsOrder::BootstrapKeyswitch,
    )
    .unwrap();
    let key = ClientKey::new(
        LweSecretKey::new(vec![1i32, 0, 1, 1], LweSecretKeyType::Binary),
        GlweSecretKey::new(vec![0i32, 1, -1, 0], GlweCommonSize::new(1, 4), sd(-0.0)),
        PbsOrder::BootstrapKeyswitch,
    );
    assert_eq!(key.check_compatible(&p), Ok(()));
    let other = ClientKey::new(
        LweSecretKey::new(vec![1i32, 0, 1, 1], LweSecretKeyType::Binary),
        GlweSecretKey::new(vec![0i32, 1, -1, 0], GlweCommonSize::new(1, 4), sd(1.5)),
        PbsOrder::BootstrapKeyswitch,
    );
    assert_eq!(
        other.check_compatible(&p),
        Err(TfheKeyError::GlweSecretKeyDistributionMismatch)
    );
}

#[test]
fn messages_and_plaintexts_convert_with_range_checks() {
    assert_eq!(message_to_word::<u32>(5), Ok(5u32));
    assert_eq!(message_to_word::<u32>(1u128 << 32), Err(TfheClientError::MessageConversion));
    assert_eq!(message_to_word::<u64>(u64::MAX as u128), Ok(u64::MAX));
    assert_eq!(plaintext_to_width(200u32, 8), Ok(200));
    assert_eq!(plaintext_to_width(300u32, 8), Err(TfheClientError::PlaintextConversion));
}
