use opaque_ke::key_exchange::group::elliptic_curve::NistP256;
use opaque_ke::key_exchange::shared::{
    generate_ke1_with, transcript, Identifiers, SerializedContext, SerializedIdentifier,
    SerializedIdentifiers,
};
use opaque_ke::errors::ProtocolError;
use rand::rngs::StdRng;
use rand::SeedableRng;

#[test]
fn ke1_carries_nonce_and_public_key() {
    let mut rng = StdRng::seed_from_u64(31);
    let sk = NistP256::random_sk(&mut rng);
    let pk = NistP256::public_key(&sk);
    let r = generate_ke1_with(sk.duplicate(), vec![4u8; 32]);
    assert_eq!(r.message.client_nonce(), &[4u8; 32]);
    assert_eq!(r.message.client_e_pk(), &pk);
    assert_eq!(r.state.client_e_sk(), &sk);
    let mut expected = vec![4u8; 32];
    expected.extend_from_slice(&pk.serialize());
    assert_eq!(r.message.serialize(), expected);
}

#[test]
fn transcript_is_the_preamble() {
    let mut rng = StdRng::seed_from_u64(32);
    let sk = NistP256::random_sk(&mut rng);
    let ke1 = generate_ke1_with(sk, vec![1u8; 32]).message;
    let ids = SerializedIdentifiers::new(b"alice", b"bob").unwrap();
    let ctx = SerializedContext::new(b"ctx").unwrap();
    let t = transcript(&ctx, &ids, b"REQ", &ke1, b"RESP", &[2u8; 32], &[3u8; 33]);
    let mut expected = b"OPAQUEv1-".to_vec();
    expected.extend_from_slice(&[0, 3]);
    expected.extend_from_slice(b"ctx");
    expected.extend_from_slice(&[0, 5]);
    expected.extend_from_slice(b"alice");
    expected.extend_from_slice(b"REQ");
    expected.extend_from_slice(&ke1.serialize());
    expected.extend_from_slice(&[0, 3]);
    expected.extend_from_slice(b"bob");
    expected.extend_from_slice(b"RESP");
    expected.extend_from_slice(&[2u8; 32]);
    expected.extend_from_slice(&[3u8; 33]);
    assert_eq!(t, expected);
}

#[test]
fn identities_default_to_public_keys() {
    let mut rng = StdRng::seed_from_u64(33);
    let client_pk = NistP256::public_key(&NistP256::random_sk(&mut rng));
    let server_pk = NistP256::public_key(&NistP256::random_sk(&mut rng));
    let ids = SerializedIdentifiers::from_identifiers(
        &Identifiers { client: None, server: Some(b"bob") },
        &client_pk,
        &server_pk,
    )
    .unwrap();
    assert_eq!(ids.client(), client_pk.serialize().as_slice());
    assert_eq!(ids.server(), b"bob");
    let long = vec![0u8; 65536];
    assert_eq!(
        SerializedIdentifier::from_identifier(Some(&long), &client_pk).err(),
        Some(ProtocolError::SerializationError)
    );
    assert_eq!(
        SerializedIdentifier::from_identifier(None, &client_pk).unwrap().as_bytes(),
        client_pk.serialize().as_slice()
    );
}
