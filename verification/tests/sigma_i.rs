use opaque_ke::errors::ProtocolError;
use opaque_ke::key_exchange::group::elliptic_curve::NistP256;
use opaque_ke::key_exchange::shared::{Identifiers, SerializedContext, SerializedIdentifiers};
use opaque_ke::key_exchange::sigma_i::ecdsa::Ecdsa;
use opaque_ke::key_exchange::sigma_i::message::{CachedMessage, Message, Role};
use opaque_ke::key_exchange::sigma_i::Ke2Builder;
use opaque_ke::key_exchange::sigma_i::shared::PreHash;
use opaque_ke::key_exchange::sigma_i::{Ke2Message, Ke2State, Ke3Message, SigmaI};
use opaque_ke::keypair::{PrivateKey, PublicKey};
use rand::rngs::StdRng;
use rand::SeedableRng;
use sha2::{Digest, Sha256};

struct Parties {
    client_s_sk: PrivateKey,
    client_s_pk: PublicKey,
    server_s_sk: PrivateKey,
    server_s_pk: PublicKey,
}

fn parties(rng: &mut StdRng) -> Parties {
    let client_s_sk = NistP256::random_sk(rng);
    let server_s_sk = NistP256::random_sk(rng);
    Parties {
        client_s_pk: NistP256::public_key(&client_s_sk),
        server_s_pk: NistP256::public_key(&server_s_sk),
        client_s_sk,
        server_s_sk,
    }
}

fn run_to_ke2(
    rng: &mut StdRng,
    p: &Parties,
) -> (
    opaque_ke::key_exchange::shared::GenerateKe1Result,
    opaque_ke::key_exchange::sigma_i::GenerateKe2Result,
    SerializedIdentifiers,
    SerializedContext,
) {
    let ke1 = SigmaI::generate_ke1(rng).unwrap();
    let ids = SerializedIdentifiers::new(b"alice", b"bob").unwrap();
    let ctx = SerializedContext::new(b"context").unwrap();
    let builder = SigmaI::ke2_builder(
        rng,
        b"credential request",
        ke1.message.duplicate(),
        b"credential response",
        p.client_s_pk.duplicate(),
        ids.duplicate(),
        ctx.duplicate(),
    )
    .unwrap();
    let data = SigmaI::ke2_builder_data(&builder);
    assert_eq!(data.role, Role::Server);
    assert_eq!(data.cache.credential_request, b"credential request".to_vec());
    assert_eq!(data.cache.ke1_message, ke1.message.serialize());
    let input = SigmaI::generate_ke2_input(&builder, rng, &p.server_s_sk).unwrap();
    let ke2 = SigmaI::build_ke2(builder, input).unwrap();
    (ke1, ke2, ids, ctx)
}

#[test]
fn sigma_i_login_succeeds() {
    let mut rng = StdRng::seed_from_u64(21);
    let p = parties(&mut rng);
    let (ke1, ke2, ids, ctx) = run_to_ke2(&mut rng, &p);
    let ke3 = SigmaI::generate_ke3(
        &mut rng,
        b"credential request",
        ke1.message.duplicate(),
        b"credential response",
        &ke1.state,
        ke2.message,
        p.server_s_pk.duplicate(),
        p.client_s_sk.duplicate(),
        &ids,
        &ctx,
    )
    .unwrap();
    let server_key = SigmaI::finish_ke(
        &ke2.state,
        ke3.message,
        Identifiers { client: Some(b"alice"), server: Some(b"bob") },
        &ctx,
    )
    .unwrap();
    assert_eq!(server_key, ke3.session_key);
    assert_eq!(server_key.len(), 32);
}

#[test]
fn sigma_i_client_refuses_wrong_server_key() {
    let mut rng = StdRng::seed_from_u64(22);
    let p = parties(&mut rng);
    let (ke1, ke2, ids, ctx) = run_to_ke2(&mut rng, &p);
    let r = SigmaI::generate_ke3(
        &mut rng,
        b"credential request",
        ke1.message.duplicate(),
        b"credential response",
        &ke1.state,
        ke2.message,
        p.client_s_pk.duplicate(),
        p.client_s_sk.duplicate(),
        &ids,
        &ctx,
    );
    assert!(matches!(r, Err(ProtocolError::InvalidLoginError)));
}

#[test]
fn sigma_i_client_refuses_tampered_mac() {
    let mut rng = StdRng::seed_from_u64(23);
    let p = parties(&mut rng);
    let (ke1, ke2, ids, ctx) = run_to_ke2(&mut rng, &p);
    let mut bytes = ke2.message.serialize();
    let last = bytes.len() - 1;
    bytes[last] ^= 1;
    let tampered = Ke2Message::deserialize_take(&mut &bytes[..]).unwrap();
    let before = rng.clone();
    let r = SigmaI::generate_ke3(
        &mut rng,
        b"credential request",
        ke1.message.duplicate(),
        b"credential response",
        &ke1.state,
        tampered,
        p.server_s_pk.duplicate(),
        p.client_s_sk.duplicate(),
        &ids,
        &ctx,
    );
    assert!(matches!(r, Err(ProtocolError::InvalidLoginError)));
    assert_eq!(rng, before);
}

#[test]
fn sigma_i_server_refuses_forged_third_message() {
    let mut rng = StdRng::seed_from_u64(24);
    let p = parties(&mut rng);
    let (ke1, ke2, ids, ctx) = run_to_ke2(&mut rng, &p);
    let ke3 = SigmaI::generate_ke3(
        &mut rng,
        b"credential request",
        ke1.message.duplicate(),
        b"credential response",
        &ke1.state,
        ke2.message,
        p.server_s_pk.duplicate(),
        p.client_s_sk.duplicate(),
        &ids,
        &ctx,
    )
    .unwrap();
    let mut bytes = ke3.message.serialize();
    let last = bytes.len() - 1;
    bytes[last] ^= 1;
    let forged = Ke3Message::deserialize_take(&mut &bytes[..]).unwrap();
    let r = SigmaI::finish_ke(&ke2.state, forged, Identifiers { client: None, server: None }, &ctx);
    assert_eq!(r, Err(ProtocolError::InvalidLoginError));
}

#[test]
fn sigma_i_server_refuses_long_client_identity() {
    let mut rng = StdRng::seed_from_u64(25);
    let p = parties(&mut rng);
    let (ke1, ke2, ids, ctx) = run_to_ke2(&mut rng, &p);
    let ke3 = SigmaI::generate_ke3(
        &mut rng,
        b"credential request",
        ke1.message.duplicate(),
        b"credential response",
        &ke1.state,
        ke2.message,
        p.server_s_pk.duplicate(),
        p.client_s_sk.duplicate(),
        &ids,
        &ctx,
    )
    .unwrap();
    let long = vec![1u8; 70000];
    let r = SigmaI::finish_ke(&ke2.state, ke3.message, Identifiers { client: Some(&long), server: None }, &ctx);
    assert_eq!(r, Err(ProtocolError::SerializationError));
}

#[test]
fn sigma_i_messages_roundtrip() {
    let mut rng = StdRng::seed_from_u64(26);
    let p = parties(&mut rng);
    let (ke1, ke2, ids, ctx) = run_to_ke2(&mut rng, &p);

    let mut bytes = ke2.message.serialize();
    assert_eq!(bytes.len(), 32 + 33 + 64 + 32);
    bytes.push(5);
    let mut input: &[u8] = &bytes;
    let back = Ke2Message::deserialize_take(&mut input).unwrap();
    assert_eq!(back, ke2.message);
    assert_eq!(input, &[5]);

    let bytes = ke2.state.serialize();
    assert_eq!(bytes.len(), 33 + 32 + 32 + 32);
    let mut input: &[u8] = &bytes;
    assert_eq!(Ke2State::deserialize_take(&mut input).unwrap(), ke2.state);
    assert_eq!(ke2.state.duplicate(), ke2.state);

    let ke3 = SigmaI::generate_ke3(
        &mut rng,
        b"credential request",
        ke1.message.duplicate(),
        b"credential response",
        &ke1.state,
        back,
        p.server_s_pk.duplicate(),
        p.client_s_sk.duplicate(),
        &ids,
        &ctx,
    )
    .unwrap();
    let bytes = ke3.message.serialize();
    assert_eq!(bytes.len(), 96);
    let mut input: &[u8] = &bytes;
    assert_eq!(Ke3Message::deserialize_take(&mut input).unwrap(), ke3.message);
    assert_eq!(ke3.message.duplicate(), ke3.message);

    let mut zero_sig: &[u8] = &[0u8; 96];
    assert_eq!(Ke3Message::deserialize_take(&mut zero_sig), Err(ProtocolError::SerializationError));
}

#[test]
fn signed_messages_hash_with_sha256() {
    let mut rng = StdRng::seed_from_u64(27);
    let p = parties(&mut rng);
    let ke1 = SigmaI::generate_ke1(&mut rng).unwrap();
    let ids = SerializedIdentifiers::new(b"alice", b"bob").unwrap();
    let ctx = SerializedContext::new(b"c").unwrap();
    let builder = SigmaI::ke2_builder(
        &mut rng,
        b"req",
        ke1.message.duplicate(),
        b"resp",
        p.client_s_pk.duplicate(),
        ids,
        ctx,
    )
    .unwrap();
    let message = SigmaI::ke2_builder_data(&builder);
    let sign = message.sign_message();
    let verify = message.verify_message();
    assert!(sign.starts_with(b"OPAQUE-SIGMA-I-Server\x00\x01c\x00\x03bob"));
    assert!(verify.starts_with(b"OPAQUE-SIGMA-I-Client\x00\x01c\x00\x05alice"));
    let hashes = message.hash();
    assert_eq!(hashes.sign, Sha256::digest(&sign).to_vec());
    assert_eq!(hashes.verify, Sha256::digest(&verify).to_vec());
}

#[test]
fn pre_hash_roundtrip() {
    let h = PreHash::new(vec![3u8; 32]);
    let bytes = h.serialize();
    let mut input: &[u8] = &bytes;
    assert_eq!(PreHash::deserialize_take(&mut input).unwrap(), h);
    let mut short: &[u8] = &[1u8; 3];
    assert_eq!(PreHash::deserialize_take(&mut short), Err(ProtocolError::SerializationError));
}

#[test]
fn sigma_i_builder_from_its_parts_and_signature_roundtrip() {
    let mut rng = StdRng::seed_from_u64(28);
    let p = parties(&mut rng);
    let ke1 = SigmaI::generate_ke1(&mut rng).unwrap();
    let ids = SerializedIdentifiers::new(b"alice", b"bob").unwrap();
    let ctx = SerializedContext::new(b"c").unwrap();
    let b = SigmaI::ke2_builder(&mut rng, b"req", ke1.message.duplicate(), b"resp", p.client_s_pk.duplicate(), ids, ctx)
        .unwrap();
    let m = SigmaI::ke2_builder_data(&b);
    let transcript = Message {
        role: m.role,
        context: m.context.duplicate(),
        identifiers: m.identifiers.duplicate(),
        cache: CachedMessage {
            credential_request: m.cache.credential_request.clone(),
            ke1_message: m.cache.ke1_message.clone(),
            credential_response: m.cache.credential_response.clone(),
            server_nonce: m.cache.server_nonce.clone(),
            server_e_pk: m.cache.server_e_pk.clone(),
            server_mac: m.cache.server_mac.clone(),
        },
    };
    let copy = Ke2Builder::from_parts(
        transcript,
        b.server_nonce().to_vec(),
        b.client_s_pk().duplicate(),
        b.server_e_pk().duplicate(),
        b.expected_mac().to_vec(),
        b.session_key().to_vec(),
    )
    .unwrap();
    assert_eq!(copy, b);

    let (sig, _) = SigmaI::generate_ke2_input(&b, &mut rng, &p.server_s_sk).unwrap();
    let mut bytes = Ecdsa::serialize_signature(&sig);
    assert_eq!(bytes.len(), 64);
    bytes.push(9);
    let mut input: &[u8] = &bytes;
    assert_eq!(Ecdsa::deserialize_take_signature(&mut input).unwrap(), sig);
    assert_eq!(input, &[9]);
}
