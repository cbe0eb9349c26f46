use primus_fhe_core::secret_key_type::RingSecretKeyType;
use primus_fhe_core::glwe::crt_key::CrtGlweSecretKey;
use primus_fhe_core::glwe::layout::{QpGlweMut, QpGlweRef};
use primus_fhe_core::glwe::message::FourierEncryptionMessage;
use primus_fhe_core::plaintext::PlaintextEmbedding;

#[test]
fn modulus_limbs_pick_one_limb_per_polynomial() {
    // two polynomials, three limbs of length two each
    let data: Vec<u32> = (0..12).collect();
    let view = QpGlweRef::new(&data, 2, 3);
    let limbs = view.modulus_limbs(1);
    assert_eq!(limbs, vec![&[2u32, 3][..], &[8u32, 9][..]]);
    let first = view.modulus_limbs(0);
    assert_eq!(first, vec![&[0u32, 1][..], &[6u32, 7][..]]);
}

#[test]
fn mutable_limbs_write_through() {
    let mut data: Vec<u32> = (0..12).collect();
    {
        let view = QpGlweMut::new(&mut data, 2, 3);
        for limb in view.modulus_limbs_mut(2) {
            for x in limb.iter_mut() {
                *x += 100;
            }
        }
    }
    assert_eq!(data, vec![0, 1, 2, 3, 104, 105, 6, 7, 8, 9, 110, 111]);
}

#[test]
fn message_slices() {
    let m = [1u32, 2, 3];
    assert_eq!(FourierEncryptionMessage::<u32>::Zero.as_slice(), None);
    assert_eq!(
        FourierEncryptionMessage::Plaintext(&m[..], PlaintextEmbedding::Centered).as_slice(),
        Some(&m[..])
    );
    assert_eq!(FourierEncryptionMessage::Encoded(&m[..]).as_slice(), Some(&m[..]));
}

#[test]
fn crt_secret_keys_split_into_polynomials() {
    let zero = CrtGlweSecretKey::<u32>::zero(2, 3, RingSecretKeyType::Binary);
    assert_eq!(zero.key(), &[0u32; 6][..]);
    assert_eq!(zero.distr(), RingSecretKeyType::Binary);
    let mut key = CrtGlweSecretKey::new(vec![1u64, 2, 3, 4, 5, 6, 7], RingSecretKeyType::Ternary, 3);
    assert_eq!(key.iter_crt_poly(), vec![&[1u64, 2, 3][..], &[4u64, 5, 6][..]]);
    for poly in key.iter_crt_poly_mut() {
        poly[0] = 0;
    }
    assert_eq!(key.key(), &[0u64, 2, 3, 0, 5, 6, 7][..]);
    key.key_mut().push(8);
    assert_eq!(key.key().len(), 8);
}
