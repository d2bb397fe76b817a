use opaque_ke::errors::{InternalError, ProtocolError};
use opaque_ke::key_exchange::group::elliptic_curve::NistP256;
use opaque_ke::keypair::KeyPair;
use p256::elliptic_curve::sec1::ToEncodedPoint;
use rand::rngs::StdRng;
use rand::SeedableRng;

#[test]
fn diffie_hellman_agrees() {
    let mut rng = StdRng::seed_from_u64(7);
    let a = NistP256::random_sk(&mut rng);
    let b = NistP256::random_sk(&mut rng);
    let a_pk = NistP256::public_key(&a);
    let b_pk = NistP256::public_key(&b);
    let ab = NistP256::diffie_hellman(&a, &b_pk);
    let ba = b.ke_diffie_hellman(&a_pk);
    assert_eq!(ab, ba);
    assert_eq!(ab.len(), 33);
    assert_ne!(ab, a_pk.serialize());
    assert_ne!(ab, b_pk.serialize());
}

#[test]
fn public_key_is_the_compressed_point() {
    let mut rng = StdRng::seed_from_u64(8);
    let sk = NistP256::random_sk(&mut rng);
    let pk = NistP256::public_key(&sk);
    let expected = p256::SecretKey::from_slice(&NistP256::serialize_sk(&sk))
        .unwrap()
        .public_key()
        .to_encoded_point(true)
        .as_bytes()
        .to_vec();
    assert_eq!(NistP256::serialize_pk(&pk), expected);
    let pair = KeyPair::from_private_key(sk.duplicate());
    assert_eq!(pair.public(), &pk);
    assert_eq!(pair.private(), &sk);
}

#[test]
fn public_key_roundtrip_and_errors() {
    let mut rng = StdRng::seed_from_u64(9);
    let pk = NistP256::public_key(&NistP256::random_sk(&mut rng));
    let mut bytes = pk.serialize();
    bytes.extend_from_slice(&[1, 2]);
    let mut input: &[u8] = &bytes;
    assert_eq!(NistP256::deserialize_take_pk(&mut input), Ok(pk.duplicate()));
    assert_eq!(input, &[1, 2]);

    let zeros = [0u8; 34];
    let mut input: &[u8] = &zeros;
    assert_eq!(NistP256::deserialize_take_pk(&mut input), Err(ProtocolError::SerializationError));
    assert_eq!(input.len(), 1);

    let short = [2u8; 10];
    let mut input: &[u8] = &short;
    assert_eq!(NistP256::deserialize_take_pk(&mut input), Err(ProtocolError::SerializationError));
    assert_eq!(input.len(), 10);
}

#[test]
fn private_key_roundtrip_and_errors() {
    let mut rng = StdRng::seed_from_u64(10);
    let sk = NistP256::random_sk(&mut rng);
    let bytes = NistP256::serialize_sk(&sk);
    let mut input: &[u8] = &bytes;
    assert_eq!(NistP256::deserialize_take_sk(&mut input), Ok(sk));
    assert!(input.is_empty());

    let zeros = [0u8; 32];
    let mut input: &[u8] = &zeros;
    assert_eq!(NistP256::deserialize_take_sk(&mut input), Err(ProtocolError::SerializationError));

    let too_big = [0xffu8; 32];
    let mut input: &[u8] = &too_big;
    assert_eq!(NistP256::deserialize_take_sk(&mut input), Err(ProtocolError::SerializationError));
}

#[test]
fn derive_scalar_is_deterministic() {
    let a = NistP256::derive_scalar(&[3u8; 32]).unwrap();
    let b = NistP256::derive_scalar(&[3u8; 32]).unwrap();
    let c = NistP256::derive_scalar(&[4u8; 32]).unwrap();
    assert_eq!(a, b);
    assert_ne!(a, c);
    let expected = voprf::derive_key::<p256::NistP256>(
        &[3u8; 32],
        b"OPAQUE-DeriveDiffieHellmanKeyPair",
        voprf::Mode::Oprf,
    )
    .unwrap();
    assert_eq!(NistP256::serialize_sk(&a), expected.to_bytes().to_vec());
    let _unused: Option<InternalError> = None;
}

#[test]
fn private_key_range_ends_at_the_group_order() {
    let n_minus_1 = [
        0xff, 0xff, 0xff, 0xff, 0x00, 0x00, 0x00, 0x00, 0xff, 0xff, 0xff, 0xff, 0xff, 0xff, 0xff, 0xff,
        0xbc, 0xe6, 0xfa, 0xad, 0xa7, 0x17, 0x9e, 0x84, 0xf3, 0xb9, 0xca, 0xc2, 0xfc, 0x63, 0x25, 0x50u8,
    ];
    let mut input: &[u8] = &n_minus_1;
    assert!(NistP256::deserialize_take_sk(&mut input).is_ok());
    let mut n = n_minus_1;
    n[31] = 0x51;
    let mut input: &[u8] = &n;
    assert_eq!(NistP256::deserialize_take_sk(&mut input), Err(ProtocolError::SerializationError));
    let mut one = [0u8; 32];
    one[31] = 1;
    let mut input: &[u8] = &one;
    assert!(NistP256::deserialize_take_sk(&mut input).is_ok());
}
