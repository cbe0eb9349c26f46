use primus_fhe_core::plaintext::{PlaintextCodec, PlaintextCodecKind, PlaintextEmbedding};

#[test]
fn codec_kind_follows_modulus_shapes() {
    assert_eq!(PlaintextCodec::new(4u64, None).kind(), PlaintextCodecKind::NativePow2);
    assert_eq!(PlaintextCodec::new(3u64, None).kind(), PlaintextCodecKind::NativeScaled);
    assert_eq!(PlaintextCodec::new(4u32, Some(1u32 << 20)).kind(), PlaintextCodecKind::ExplicitPow2);
    assert_eq!(PlaintextCodec::new(3u32, Some(17u32)).kind(), PlaintextCodecKind::ExplicitScaledNarrow);
    assert_eq!(
        PlaintextCodec::new(3u32, Some(4_000_000_000u32)).kind(),
        PlaintextCodecKind::ExplicitScaledWide
    );
    assert_eq!(PlaintextCodec::new(4u32, Some(17u32)).kind(), PlaintextCodecKind::ExplicitScaledNarrow);
    assert_eq!(PlaintextCodec::new(7u64, None).t(), 7);
}

#[test]
fn native_pow2_encodes_with_shifts() {
    let codec = PlaintextCodec::new(4u32, None);
    assert_eq!(codec.encode_value(1, PlaintextEmbedding::Unsigned), 1 << 30);
    assert_eq!(codec.encode_value(3, PlaintextEmbedding::Unsigned), 3 << 30);
    // 3 stands for -1 under centered embedding
    assert_eq!(codec.encode_value(3, PlaintextEmbedding::Centered), (1u32 << 30).wrapping_neg());
    assert_eq!(codec.decode_value(3 << 30), 3);
    // round half up: (1 << 29) is exactly half a step
    assert_eq!(codec.decode_value(1 << 29), 1);
    assert_eq!(codec.decode_value((1 << 29) - 1), 0);
    // wraps modulo t
    assert_eq!(codec.decode_value(u32::MAX), 0);
}

#[test]
fn native_scaled_rounds_scale_factor() {
    let codec = PlaintextCodec::new(3u64, None);
    // round(2^64 / 3) = 6148914691236517205
    assert_eq!(codec.encode_value_with_delta(1, PlaintextEmbedding::Unsigned), 6_148_914_691_236_517_205);
    // round(2 * 2^64 / 3) = 12297829382473034411
    assert_eq!(codec.encode_value(2, PlaintextEmbedding::Unsigned), 12_297_829_382_473_034_411);
    for m in 0..3u64 {
        assert_eq!(codec.decode_value(codec.encode_value(m, PlaintextEmbedding::Unsigned)), m);
        assert_eq!(codec.decode_value(codec.encode_value(m, PlaintextEmbedding::Centered)), m);
    }
}

#[test]
fn explicit_scaled_encode_and_decode() {
    let codec = PlaintextCodec::new(3u32, Some(17u32));
    // round(17 / 3) = 6, round(2 * 17 / 3) = 11
    assert_eq!(codec.encode_value(1, PlaintextEmbedding::Unsigned), 6);
    assert_eq!(codec.encode_value(2, PlaintextEmbedding::Unsigned), 11);
    assert_eq!(codec.encode_value_with_delta(2, PlaintextEmbedding::Unsigned), 12);
    // centered: 2 stands for -1, encoded as 17 - 6
    assert_eq!(codec.encode_value(2, PlaintextEmbedding::Centered), 11);
    assert_eq!(codec.decode_value(16), 0);
    assert_eq!(codec.decode_value(8), 1);
    assert_eq!(codec.decode_value(9), 2);
}

#[test]
fn explicit_pow2_roundtrip_with_noise() {
    let q = 1u64 << 32;
    let codec = PlaintextCodec::new(16u64, Some(q));
    for m in 0..16u64 {
        let e = codec.encode_value(m, PlaintextEmbedding::Unsigned);
        assert_eq!(e, m << 28);
        let noisy_up = (e + 1000) % q;
        let noisy_down = (e + q - 1000) % q;
        assert_eq!(codec.decode_value(noisy_up), m);
        assert_eq!(codec.decode_value(noisy_down), m);
    }
}

#[test]
fn slice_encoding_matches_value_encoding() {
    let codec = PlaintextCodec::new(5u64, Some(1_000_003u64));
    let messages = [0u64, 1, 2, 3, 4];
    let mut out = [0u64; 5];
    codec.encode_slice_to(&messages, &mut out, PlaintextEmbedding::Centered);
    for (i, &m) in messages.iter().enumerate() {
        assert_eq!(out[i], codec.encode_value(m, PlaintextEmbedding::Centered));
    }
    let mut inplace = messages;
    codec.encode_slice_inplace(&mut inplace, PlaintextEmbedding::Centered);
    assert_eq!(inplace, out);
    let mut decoded = [0u64; 5];
    codec.decode_slice_to(&out, &mut decoded);
    assert_eq!(decoded, messages);
    codec.decode_slice_inplace(&mut out);
    assert_eq!(out, messages);
}

#[test]
fn add_encode_accumulates_modulo_q() {
    let q = 1_000_003u64;
    let codec = PlaintextCodec::new(5u64, Some(q));
    let mut acc = q - 1;
    codec.add_encode_value(&mut acc, 1, PlaintextEmbedding::Unsigned);
    // round(q / 5) = 200001, then (q - 1 + 200001) mod q
    assert_eq!(acc, 200_000);
    let mut accs = [q - 1, 0];
    codec.add_encode_slice_assign(&mut accs, &[1, 4], PlaintextEmbedding::Centered);
    assert_eq!(accs[0], 200_000);
    // 4 stands for -1 under centered embedding
    assert_eq!(accs[1], q - 200_001);
    let mut accs = [0u64, 0];
    codec.add_encode_slice_assign_with_delta(&mut accs, &[2, 3], PlaintextEmbedding::Unsigned);
    assert_eq!(accs, [400_002, 600_003 % q]);
}
