use opaque_ke::errors::ProtocolError;
use opaque_ke::key_exchange::group::elliptic_curve::NistP256;
use opaque_ke::key_exchange::shared::{Identifiers, Ke1Message, SerializedContext, SerializedIdentifiers};
use opaque_ke::key_exchange::tripledh::{Ke2Message, Ke2State, Ke3Message, TripleDh};
use opaque_ke::keypair::{PrivateKey, PublicKey};
use rand::rngs::StdRng;
use rand::SeedableRng;

struct Parties {
    client_s_sk: PrivateKey,
    client_s_pk: PublicKey,
    server_s_sk: PrivateKey,
    server_s_pk: PublicKey,
}

fn parties(rng: &mut StdRng) -> Parties {
    let client_s_sk = NistP256::random_sk(rng);
    let server_s_sk = NistP256::random_sk(rng);
    Parties {
        client_s_pk: NistP256::public_key(&client_s_sk),
        server_s_pk: NistP256::public_key(&server_s_sk),
        client_s_sk,
        server_s_sk,
    }
}

fn no_ids() -> Identifiers<'static> {
    Identifiers { client: None, server: None }
}

/// Runs a login up to the second message; returns the pieces both sides hold.
fn run_to_ke2(
    rng: &mut StdRng,
    p: &Parties,
    context: &[u8],
) -> (
    opaque_ke::key_exchange::shared::GenerateKe1Result,
    opaque_ke::key_exchange::tripledh::GenerateKe2Result,
    SerializedIdentifiers,
    SerializedContext,
) {
    let ke1 = TripleDh::generate_ke1(rng).unwrap();
    let ids = SerializedIdentifiers::from_identifiers(&no_ids(), &p.client_s_pk, &p.server_s_pk).unwrap();
    let ctx = SerializedContext::new(context).unwrap();
    let builder = TripleDh::ke2_builder(
        rng,
        b"credential request",
        ke1.message.duplicate(),
        b"credential response",
        p.client_s_pk.duplicate(),
        &ids,
        &ctx,
    )
    .unwrap();
    assert_eq!(TripleDh::ke2_builder_data(&builder), ke1.message.client_e_pk());
    let input = TripleDh::generate_ke2_input(&builder, rng, &p.server_s_sk);
    let ke2 = TripleDh::build_ke2(builder, input).unwrap();
    (ke1, ke2, ids, ctx)
}

#[test]
fn tripledh_login_succeeds() {
    let mut rng = StdRng::seed_from_u64(1);
    let p = parties(&mut rng);
    let (ke1, ke2, ids, ctx) = run_to_ke2(&mut rng, &p, b"context");
    let client_ctx = SerializedContext::new(b"context").unwrap();
    let before = rng.clone();
    let ke3 = TripleDh::generate_ke3(
        &mut rng,
        b"credential request",
        ke1.message.duplicate(),
        b"credential response",
        &ke1.state,
        ke2.message,
        p.server_s_pk.duplicate(),
        p.client_s_sk.duplicate(),
        &ids,
        &client_ctx,
    )
    .unwrap();
    assert_eq!(rng, before);
    let server_key = TripleDh::finish_ke(&ke2.state, ke3.message, no_ids(), &ctx).unwrap();
    assert_eq!(server_key, ke3.session_key);
    assert_eq!(server_key.len(), 32);
}

#[test]
fn tripledh_client_refuses_tampered_server_mac() {
    let mut rng = StdRng::seed_from_u64(2);
    let p = parties(&mut rng);
    let (ke1, ke2, ids, ctx) = run_to_ke2(&mut rng, &p, b"");
    let mut bytes = ke2.message.serialize();
    let last = bytes.len() - 1;
    bytes[last] ^= 0x80;
    let tampered = Ke2Message::deserialize_take(&mut &bytes[..]).unwrap();
    let r = TripleDh::generate_ke3(
        &mut rng,
        b"credential request",
        ke1.message.duplicate(),
        b"credential response",
        &ke1.state,
        tampered,
        p.server_s_pk.duplicate(),
        p.client_s_sk.duplicate(),
        &ids,
        &ctx,
    );
    assert!(matches!(r, Err(ProtocolError::InvalidLoginError)));
}

#[test]
fn tripledh_client_refuses_other_context() {
    let mut rng = StdRng::seed_from_u64(3);
    let p = parties(&mut rng);
    let (ke1, ke2, ids, _ctx) = run_to_ke2(&mut rng, &p, b"server context");
    let other = SerializedContext::new(b"client context").unwrap();
    let r = TripleDh::generate_ke3(
        &mut rng,
        b"credential request",
        ke1.message.duplicate(),
        b"credential response",
        &ke1.state,
        ke2.message,
        p.server_s_pk.duplicate(),
        p.client_s_sk.duplicate(),
        &ids,
        &other,
    );
    assert!(matches!(r, Err(ProtocolError::InvalidLoginError)));
}

#[test]
fn tripledh_client_refuses_wrong_server_key() {
    let mut rng = StdRng::seed_from_u64(4);
    let p = parties(&mut rng);
    let (ke1, ke2, ids, ctx) = run_to_ke2(&mut rng, &p, b"");
    let impostor = NistP256::public_key(&NistP256::random_sk(&mut rng));
    let r = TripleDh::generate_ke3(
        &mut rng,
        b"credential request",
        ke1.message.duplicate(),
        b"credential response",
        &ke1.state,
        ke2.message,
        impostor,
        p.client_s_sk.duplicate(),
        &ids,
        &ctx,
    );
    assert!(matches!(r, Err(ProtocolError::InvalidLoginError)));
}

#[test]
fn tripledh_server_refuses_wrong_client_mac() {
    let mut rng = StdRng::seed_from_u64(5);
    let p = parties(&mut rng);
    let (_ke1, ke2, _ids, ctx) = run_to_ke2(&mut rng, &p, b"");
    let forged = Ke3Message::deserialize_take(&mut &[0u8; 32][..]).unwrap();
    let r = TripleDh::finish_ke(&ke2.state, forged, no_ids(), &ctx);
    assert_eq!(r, Err(ProtocolError::InvalidLoginError));
}

#[test]
fn tripledh_messages_roundtrip() {
    let mut rng = StdRng::seed_from_u64(6);
    let p = parties(&mut rng);
    let (ke1, ke2, _ids, _ctx) = run_to_ke2(&mut rng, &p, b"");

    let bytes = ke1.message.serialize();
    assert_eq!(bytes.len(), 65);
    let mut input: &[u8] = &bytes;
    assert_eq!(Ke1Message::deserialize_take(&mut input).unwrap(), ke1.message);
    assert!(input.is_empty());

    let mut bytes = ke2.message.serialize();
    assert_eq!(bytes.len(), 32 + 33 + 32);
    bytes.push(42);
    let mut input: &[u8] = &bytes;
    assert_eq!(Ke2Message::deserialize_take(&mut input).unwrap(), ke2.message);
    assert_eq!(input, &[42]);

    let bytes = ke2.state.serialize();
    assert_eq!(bytes.len(), 64);
    let mut input: &[u8] = &bytes;
    assert_eq!(Ke2State::deserialize_take(&mut input).unwrap(), ke2.state);
    assert_eq!(ke2.state.duplicate(), ke2.state);
    assert_eq!(ke2.message.duplicate(), ke2.message);

    let mut short: &[u8] = &bytes[..40];
    assert_eq!(Ke2State::deserialize_take(&mut short), Err(ProtocolError::SerializationError));
    let mut short: &[u8] = &[1u8; 31];
    assert_eq!(Ke3Message::deserialize_take(&mut short), Err(ProtocolError::SerializationError));
}

#[test]
fn tripledh_second_message_with_bad_point_is_refused() {
    let mut bytes = vec![0u8; 32];
    bytes.extend_from_slice(&[0u8; 33]);
    bytes.extend_from_slice(&[0u8; 32]);
    let mut input: &[u8] = &bytes;
    assert_eq!(Ke2Message::deserialize_take(&mut input), Err(ProtocolError::SerializationError));
}

#[test]
fn tripledh_builder_is_deterministic_in_its_randomness() {
    let mut rng = StdRng::seed_from_u64(11);
    let p = parties(&mut rng);
    let ke1 = TripleDh::generate_ke1(&mut rng).unwrap();
    let ids = SerializedIdentifiers::new(b"alice", b"bob").unwrap();
    let ctx = SerializedContext::new(b"ctx").unwrap();
    let e = NistP256::random_sk(&mut rng);
    let build = |e: PrivateKey| {
        let b = TripleDh::ke2_builder_with(
            e,
            vec![7u8; 32],
            b"req",
            ke1.message.duplicate(),
            b"resp",
            p.client_s_pk.duplicate(),
            &ids,
            &ctx,
        );
        let ss2 = TripleDh::generate_ke2_input(&b, &mut StdRng::seed_from_u64(0), &p.server_s_sk);
        TripleDh::build_ke2(b, ss2).unwrap()
    };
    let a = build(e.duplicate());
    let b = build(e);
    assert_eq!(a.message.serialize(), b.message.serialize());
    assert_eq!(a.message.server_nonce(), &[7u8; 32]);
}

#[test]
fn identifiers_too_long_are_refused() {
    let long = vec![0u8; 65536];
    assert_eq!(SerializedIdentifiers::new(&long, b"bob").err(), Some(ProtocolError::SerializationError));
    assert_eq!(SerializedContext::new(&long).err(), Some(ProtocolError::SerializationError));
}

#[test]
fn tripledh_builder_from_its_parts() {
    let mut rng = StdRng::seed_from_u64(12);
    let p = parties(&mut rng);
    let ke1 = TripleDh::generate_ke1(&mut rng).unwrap();
    let ids = SerializedIdentifiers::new(b"alice", b"bob").unwrap();
    let ctx = SerializedContext::new(b"ctx").unwrap();
    let b = TripleDh::ke2_builder(&mut rng, b"req", ke1.message.duplicate(), b"resp", p.client_s_pk.duplicate(), &ids, &ctx)
        .unwrap();
    let copy = opaque_ke::key_exchange::tripledh::Ke2Builder::from_parts(
        b.server_nonce().to_vec(),
        b.preamble().to_vec(),
        TripleDh::ke2_builder_data(&b).duplicate(),
        b.server_e_pk().duplicate(),
        b.shared_secret_1().to_vec(),
        b.shared_secret_3().to_vec(),
    )
    .unwrap();
    assert_eq!(copy, b);
    assert!(opaque_ke::key_exchange::tripledh::Ke2Builder::from_parts(
        vec![0u8; 31],
        vec![],
        b.server_e_pk().duplicate(),
        b.server_e_pk().duplicate(),
        vec![0u8; 33],
        vec![0u8; 33],
    )
    .is_none());
}
