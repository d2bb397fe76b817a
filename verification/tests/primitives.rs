use hkdf::Hkdf;
use hmac::{Mac, SimpleHmac};
use opaque_ke::errors::{InternalError, ProtocolError};
use opaque_ke::key_exchange::shared::{
    compute_ke2_macs, derive_keys, finalize_ke3_transcript, hkdf_expand_label, STR_CLIENT_MAC,
    STR_HANDSHAKE_SECRET, STR_OPAQUE, STR_OPAQUE_VERSION, STR_SERVER_MAC, STR_SESSION_KEY,
};
use opaque_ke::key_exchange::group::STR_OPAQUE_DERIVE_AUTH_KEY_PAIR;
use opaque_ke::key_exchange::sigma_i::message::{STR_CLIENT, STR_SERVER, STR_SIGMA_I};
use sha2::{Digest, Sha256};

fn hex(s: &str) -> Vec<u8> {
    (0..s.len()).step_by(2).map(|i| u8::from_str_radix(&s[i..i + 2], 16).unwrap()).collect()
}

fn hmac(key: &[u8], msg: &[u8]) -> Vec<u8> {
    let mut m = <SimpleHmac<Sha256> as Mac>::new_from_slice(key).unwrap();
    m.update(msg);
    m.finalize().into_bytes().to_vec()
}

fn expand_label(secret: &[u8], label: &[u8], context: &[u8]) -> Vec<u8> {
    let mut info = vec![0u8, 32u8, (7 + label.len()) as u8];
    info.extend_from_slice(b"OPAQUE-");
    info.extend_from_slice(label);
    info.push(context.len() as u8);
    info.extend_from_slice(context);
    let mut okm = [0u8; 32];
    Hkdf::<Sha256>::from_prk(secret).unwrap().expand(&info, &mut okm).unwrap();
    okm.to_vec()
}

#[test]
fn labels_spell_their_strings() {
    assert_eq!(&STR_OPAQUE_VERSION, b"OPAQUEv1-");
    assert_eq!(&STR_OPAQUE, b"OPAQUE-");
    assert_eq!(&STR_HANDSHAKE_SECRET, b"HandshakeSecret");
    assert_eq!(&STR_SESSION_KEY, b"SessionKey");
    assert_eq!(&STR_SERVER_MAC, b"ServerMAC");
    assert_eq!(&STR_CLIENT_MAC, b"ClientMAC");
    assert_eq!(&STR_OPAQUE_DERIVE_AUTH_KEY_PAIR, b"OPAQUE-DeriveDiffieHellmanKeyPair");
    assert_eq!(&STR_SIGMA_I, b"OPAQUE-SIGMA-I-");
    assert_eq!(&STR_SERVER, b"Server");
    assert_eq!(&STR_CLIENT, b"Client");
}

#[test]
fn expand_label_matches_hkdf_expand() {
    // The published HKDF-SHA-256 pseudorandom key of 22 bytes 0x0b with no salt.
    let prk = hex("19ef24a32c717b167f33a91d6f648bdf96596776afdb6377ac434c1c293ccb04");
    let out = hkdf_expand_label(&prk, b"SessionKey", &[7u8; 32]).unwrap();
    assert_eq!(out, expand_label(&prk, b"SessionKey", &[7u8; 32]));
    assert_eq!(out.len(), 32);
    assert_ne!(out, prk);
}

#[test]
fn expand_label_refuses_short_secret() {
    assert_eq!(
        hkdf_expand_label(&[1u8; 31], b"ServerMAC", b""),
        Err(ProtocolError::LibraryError(InternalError::HkdfError))
    );
}

#[test]
fn derive_keys_follows_the_key_schedule() {
    let ikm = hex("0b0b0b0b0b0b0b0b0b0b0b0b0b0b0b0b0b0b0b0b0b0b");
    let th = Sha256::digest(b"preamble").to_vec();
    let keys = derive_keys(&ikm, &th).unwrap();
    let (prk, _) = Hkdf::<Sha256>::extract(None, &ikm);
    assert_eq!(
        prk.to_vec(),
        hex("19ef24a32c717b167f33a91d6f648bdf96596776afdb6377ac434c1c293ccb04")
    );
    let hs = expand_label(&prk, b"HandshakeSecret", &th);
    assert_eq!(keys.handshake_secret, hs);
    assert_eq!(keys.session_key, expand_label(&prk, b"SessionKey", &th));
    assert_eq!(keys.km2, expand_label(&hs, b"ServerMAC", b""));
    assert_eq!(keys.km3, expand_label(&hs, b"ClientMAC", b""));
}

#[test]
fn ke2_macs_follow_the_transcript() {
    let ikm = [5u8; 99];
    let preamble = b"OPAQUEv1-some transcript".to_vec();
    let th = Sha256::digest(&preamble).to_vec();
    let keys = derive_keys(&ikm, &th).unwrap();
    let (server_mac, client_mac) = compute_ke2_macs(&preamble, &keys, &th).unwrap();
    assert_eq!(server_mac, hmac(&keys.km2, &th));
    let mut full = preamble.clone();
    full.extend_from_slice(&server_mac);
    assert_eq!(client_mac, hmac(&keys.km3, &Sha256::digest(&full)));
}

#[test]
fn hmac_sha256_vector_through_macs() {
    // The published HMAC-SHA-256 vector for key "Jefe", reached through the
    // server MAC.
    let mut keys = derive_keys(&[1u8; 33], &[0u8; 32]).unwrap();
    keys.km2 = b"Jefe".to_vec();
    let (server_mac, _) = compute_ke2_macs(b"", &keys, b"what do ya want for nothing?").unwrap();
    assert_eq!(
        server_mac,
        hex("5bdcc146bf60754e6a042426089575c75a003f089d2739839dec58b964ec3843")
    );
}

#[test]
fn ke3_transcript_checks_server_mac() {
    let ikm = [9u8; 99];
    let preamble = b"transcript".to_vec();
    let th = Sha256::digest(&preamble).to_vec();
    let keys = derive_keys(&ikm, &th).unwrap();
    let (server_mac, client_mac) = compute_ke2_macs(&preamble, &keys, &th).unwrap();
    let (keys3, mac3) = finalize_ke3_transcript(&preamble, &ikm, &server_mac).unwrap();
    assert_eq!(keys3.session_key, keys.session_key);
    assert_eq!(mac3, client_mac);
    let mut bad = server_mac.clone();
    bad[0] ^= 1;
    assert!(matches!(
        finalize_ke3_transcript(&preamble, &ikm, &bad),
        Err(ProtocolError::InvalidLoginError)
    ));
    assert!(matches!(
        finalize_ke3_transcript(&preamble, &ikm, &server_mac[..31]),
        Err(ProtocolError::InvalidLoginError)
    ));
}
