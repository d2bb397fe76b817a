//! What the key exchange protocols share: the first message, the transcript
//! preamble, the key schedule and the MACs over the transcript.
use vstd::prelude::*;
use crate::errors::{InternalError, ProtocolError};
use crate::hash::{
    ct_eq, hkdf_expand, hkdf_expand_spec, hkdf_extract, hkdf_extract_spec, hmac_sha256, hmac_spec,
    sha256, sha256_spec, HASH_LEN,
};
use crate::key_exchange::group::elliptic_curve::{is_valid_pk, public_key_spec, take_pk_spec, NistP256};
use crate::key_exchange::group::PK_LEN;
use crate::keypair::{pk_bytes_ok, KeyPair, PrivateKey, PublicKey};
use crate::random::random_bytes;
use crate::serialization::{
    append_bytes, append_len_prefixed, concat_bytes, copy_bytes, i2osp_2_spec, len_prefixed, take_array,
};

verus! {

/// Length of a nonce.
pub const NONCE_LEN: usize = 32;

/// The prefix of the transcript preamble: `"OPAQUEv1-"`.
pub const STR_OPAQUE_VERSION: [u8; 9] = [
    0x4f, 0x50, 0x41, 0x51, 0x55, 0x45, 0x76, 0x31, 0x2d,
];

/// The prefix of every key schedule label: `"OPAQUE-"`.
pub const STR_OPAQUE: [u8; 7] = [
    0x4f, 0x50, 0x41, 0x51, 0x55, 0x45, 0x2d,
];

/// The label of the handshake secret: `"HandshakeSecret"`.
pub const STR_HANDSHAKE_SECRET: [u8; 15] = [
    0x48, 0x61, 0x6e, 0x64, 0x73, 0x68, 0x61, 0x6b, 0x65, 0x53, 0x65, 0x63,
    0x72, 0x65, 0x74,
];

/// The label of the session key: `"SessionKey"`.
pub const STR_SESSION_KEY: [u8; 10] = [
    0x53, 0x65, 0x73, 0x73, 0x69, 0x6f, 0x6e, 0x4b, 0x65, 0x79,
];

/// The label of the server's MAC key: `"ServerMAC"`.
pub const STR_SERVER_MAC: [u8; 9] = [
    0x53, 0x65, 0x72, 0x76, 0x65, 0x72, 0x4d, 0x41, 0x43,
];

/// The label of the client's MAC key: `"ClientMAC"`.
pub const STR_CLIENT_MAC: [u8; 9] = [
    0x43, 0x6c, 0x69, 0x65, 0x6e, 0x74, 0x4d, 0x41, 0x43,
];

//////////////////////////
// Context and identities
//////////////////////////

/// The context string that both parties bind into the transcript; at most
/// 65535 bytes long.
#[derive(Debug, PartialEq, Eq)]
pub struct SerializedContext {
    bytes: Vec<u8>,
}

impl View for SerializedContext {
    type V = Seq<u8>;

    closed spec fn view(&self) -> Seq<u8> {
        self.bytes@
    }
}

impl SerializedContext {
    #[verifier::type_invariant]
    closed spec fn wf(self) -> bool {
        self.bytes@.len() < 65536
    }

    /// The context `bytes`.
    ///
    /// Fails with [`ProtocolError::SerializationError`] where it is longer
    /// than 65535 bytes, since its length is encoded in two bytes.
    pub fn new(bytes: &[u8]) -> (r: Result<SerializedContext, ProtocolError>)
        ensures
            r is Ok <==> bytes@.len() < 65536,
            r is Ok ==> r.unwrap()@ == bytes@,
            r is Err ==> r == Err::<SerializedContext, ProtocolError>(ProtocolError::SerializationError),
    {
        if bytes.len() < 65536 {
            Ok(SerializedContext { bytes: copy_bytes(bytes) })
        } else {
            Err(ProtocolError::SerializationError)
        }
    }

    /// The context's bytes.
    pub fn as_bytes(&self) -> (r: &[u8])
        ensures
            r@ == self@,
            r@.len() < 65536,
    {
        proof { use_type_invariant(self); }
        self.bytes.as_slice()
    }

    /// A copy of this context.
    pub fn duplicate(&self) -> (r: SerializedContext)
        ensures
            r@ == self@,
    {
        SerializedContext { bytes: copy_bytes(self.as_bytes()) }
    }
}

/// The identities that the parties were given, if any.
pub struct Identifiers<'a> {
    /// The client's identity; its public key where absent.
    pub client: Option<&'a [u8]>,
    /// The server's identity; its public key where absent.
    pub server: Option<&'a [u8]>,
}

/// The identity that stands for a party: the one given, or else the encoding
/// of its public key.
pub open spec fn identifier_spec(id: Option<&[u8]>, pk: Seq<u8>) -> Seq<u8> {
    match id {
        Some(s) => s@,
        None => pk,
    }
}

/// One party's identity as it enters the transcript; at most 65535 bytes.
#[derive(Debug, PartialEq, Eq)]
pub struct SerializedIdentifier {
    bytes: Vec<u8>,
}

impl View for SerializedIdentifier {
    type V = Seq<u8>;

    closed spec fn view(&self) -> Seq<u8> {
        self.bytes@
    }
}

impl SerializedIdentifier {
    #[verifier::type_invariant]
    closed spec fn wf(self) -> bool {
        self.bytes@.len() < 65536
    }

    /// The identity `id`, or the encoding of `pk` where `id` is absent.
    ///
    /// Fails with [`ProtocolError::SerializationError`] where the identity
    /// is longer than 65535 bytes.
    pub fn from_identifier(id: Option<&[u8]>, pk: &PublicKey) -> (r: Result<SerializedIdentifier, ProtocolError>)
        ensures
            r is Ok <==> identifier_spec(id, pk@).len() < 65536,
            r is Ok ==> r.unwrap()@ == identifier_spec(id, pk@),
            r is Err ==> r == Err::<SerializedIdentifier, ProtocolError>(ProtocolError::SerializationError),
    {
        let bytes = match id {
            Some(s) => copy_bytes(s),
            None => pk.serialize(),
        };
        if bytes.len() < 65536 {
            Ok(SerializedIdentifier { bytes })
        } else {
            Err(ProtocolError::SerializationError)
        }
    }

    /// The identity's bytes.
    pub fn as_bytes(&self) -> (r: &[u8])
        ensures
            r@ == self@,
            r@.len() < 65536,
    {
        proof { use_type_invariant(self); }
        self.bytes.as_slice()
    }

    /// A copy of this identity.
    pub fn duplicate(&self) -> (r: SerializedIdentifier)
        ensures
            r@ == self@,
    {
        SerializedIdentifier { bytes: copy_bytes(self.as_bytes()) }
    }
}

/// Both parties' identities as they enter the transcript.
#[derive(Debug, PartialEq, Eq)]
pub struct SerializedIdentifiers {
    client: SerializedIdentifier,
    server: SerializedIdentifier,
}

impl SerializedIdentifiers {
    /// The client's identity.
    pub closed spec fn client_spec(&self) -> Seq<u8> {
        self.client@
    }

    /// The server's identity.
    pub closed spec fn server_spec(&self) -> Seq<u8> {
        self.server@
    }

    /// The identities of `ids`, each defaulting to the party's public key.
    ///
    /// Fails with [`ProtocolError::SerializationError`] where either
    /// identity is longer than 65535 bytes.
    pub fn from_identifiers(ids: &Identifiers, client_s_pk: &PublicKey, server_s_pk: &PublicKey) -> (r:
        Result<SerializedIdentifiers, ProtocolError>)
        ensures
            r is Ok <==> (identifier_spec(ids.client, client_s_pk@).len() < 65536
                && identifier_spec(ids.server, server_s_pk@).len() < 65536),
            r is Ok ==> r.unwrap().client_spec() == identifier_spec(ids.client, client_s_pk@),
            r is Ok ==> r.unwrap().server_spec() == identifier_spec(ids.server, server_s_pk@),
            r is Err ==> r == Err::<SerializedIdentifiers, ProtocolError>(ProtocolError::SerializationError),
    {
        let client = SerializedIdentifier::from_identifier(ids.client, client_s_pk)?;
        let server = SerializedIdentifier::from_identifier(ids.server, server_s_pk)?;
        Ok(SerializedIdentifiers { client, server })
    }

    /// The identities `client` and `server`, given explicitly.
    ///
    /// Fails with [`ProtocolError::SerializationError`] where either is
    /// longer than 65535 bytes.
    pub fn new(client: &[u8], server: &[u8]) -> (r: Result<SerializedIdentifiers, ProtocolError>)
        ensures
            r is Ok <==> (client@.len() < 65536 && server@.len() < 65536),
            r is Ok ==> r.unwrap().client_spec() == client@,
            r is Ok ==> r.unwrap().server_spec() == server@,
            r is Err ==> r == Err::<SerializedIdentifiers, ProtocolError>(ProtocolError::SerializationError),
    {
        if client.len() < 65536 && server.len() < 65536 {
            Ok(SerializedIdentifiers {
                client: SerializedIdentifier { bytes: copy_bytes(client) },
                server: SerializedIdentifier { bytes: copy_bytes(server) },
            })
        } else {
            Err(ProtocolError::SerializationError)
        }
    }

    /// A copy of these identities.
    pub fn duplicate(&self) -> (r: SerializedIdentifiers)
        ensures
            r.client_spec() == self.client_spec(),
            r.server_spec() == self.server_spec(),
    {
        SerializedIdentifiers { client: self.client.duplicate(), server: self.server.duplicate() }
    }

    /// The client's identity, borrowed.
    pub fn client(&self) -> (r: &[u8])
        ensures
            r@ == self.client_spec(),
            r@.len() < 65536,
    {
        self.client.as_bytes()
    }

    /// The server's identity, borrowed.
    pub fn server(&self) -> (r: &[u8])
        ensures
            r@ == self.server_spec(),
            r@.len() < 65536,
    {
        self.server.as_bytes()
    }
}

//////////////////////////
// The first message
//////////////////////////

/// What the first message holds: the client's nonce and ephemeral public key.
pub struct Ke1MessageView {
    pub client_nonce: Seq<u8>,
    pub client_e_pk: Seq<u8>,
}

/// The first key exchange message, sent by the client.
#[derive(Debug, PartialEq, Eq)]
pub struct Ke1Message {
    client_nonce: Vec<u8>,
    client_e_pk: PublicKey,
}

impl View for Ke1Message {
    type V = Ke1MessageView;

    closed spec fn view(&self) -> Ke1MessageView {
        Ke1MessageView { client_nonce: self.client_nonce@, client_e_pk: self.client_e_pk@ }
    }
}

/// The bytes of a first message: nonce, then public key.
pub open spec fn ke1_bytes(m: Ke1MessageView) -> Seq<u8> {
    m.client_nonce + m.client_e_pk
}

/// What taking a first message from the front of `input` gives.
pub open spec fn ke1_take_spec(input: Seq<u8>) -> (Option<Ke1MessageView>, Seq<u8>) {
    if input.len() < NONCE_LEN {
        (None, input)
    } else {
        let nonce = input.subrange(0, NONCE_LEN as int);
        let (pk, rest) = take_pk_spec(input.subrange(NONCE_LEN as int, input.len() as int));
        match pk {
            Some(pk) => (Some(Ke1MessageView { client_nonce: nonce, client_e_pk: pk }), rest),
            None => (None, rest),
        }
    }
}

impl Ke1Message {
    #[verifier::type_invariant]
    closed spec fn wf(self) -> bool {
        self.client_nonce@.len() == NONCE_LEN
    }

    /// The client's nonce.
    pub fn client_nonce(&self) -> (r: &[u8])
        ensures
            r@ == self@.client_nonce,
            r@.len() == NONCE_LEN,
    {
        proof { use_type_invariant(self); }
        self.client_nonce.as_slice()
    }

    /// The client's ephemeral public key.
    pub fn client_e_pk(&self) -> (r: &PublicKey)
        ensures
            r@ == self@.client_e_pk,
    {
        &self.client_e_pk
    }

    /// The bytes of this message, as they enter the transcript.
    pub fn serialize(&self) -> (r: Vec<u8>)
        ensures
            r@ == ke1_bytes(self@),
            self@.client_nonce.len() == NONCE_LEN,
            pk_bytes_ok(self@.client_e_pk),
            r@.len() == NONCE_LEN + PK_LEN,
            r@.subrange(0, 32) == self@.client_nonce,
            r@.subrange(32, 65) == self@.client_e_pk,
            forall|rest: Seq<u8>| #[trigger] ke1_take_spec(r@ + rest) == (Some(self@), rest),
    {
        let r = concat_bytes(self.client_nonce(), self.client_e_pk.as_bytes());
        proof {
            lemma_ke1_layout(self@);
            assert forall|rest: Seq<u8>| #[trigger] ke1_take_spec(r@ + rest) == (Some(self@), rest) by {
                lemma_ke1_roundtrip(self@, rest);
            }
        }
        r
    }

    /// Takes a first message from the front of `input`.
    ///
    /// Fails with [`ProtocolError::SerializationError`] where the input is too
    /// short or the public key does not decode.
    pub fn deserialize_take(input: &mut &[u8]) -> (r: Result<Ke1Message, ProtocolError>)
        ensures
            final(input)@ == ke1_take_spec(old(input)@).1,
            r is Ok <==> ke1_take_spec(old(input)@).0 is Some,
            r is Ok ==> r.unwrap()@ == ke1_take_spec(old(input)@).0.unwrap(),
            r is Err ==> r == Err::<Ke1Message, ProtocolError>(ProtocolError::SerializationError),
            r is Ok <==> (old(input)@.len() >= 65 && is_valid_pk(old(input)@.subrange(32, 65))),
            r is Ok ==> {
                &&& r.unwrap()@.client_nonce == old(input)@.subrange(0, 32)
                &&& r.unwrap()@.client_e_pk == old(input)@.subrange(32, 65)
                &&& final(input)@ == old(input)@.subrange(65, old(input)@.len() as int)
            },
    {
        proof { lemma_ke1_take_layout(input@); }
        let client_nonce = take_array(input, NONCE_LEN)?;
        let client_e_pk = NistP256::deserialize_take_pk(input)?;
        Ok(Ke1Message { client_nonce, client_e_pk })
    }

    /// A copy of this message.
    pub fn duplicate(&self) -> (r: Ke1Message)
        ensures
            r@ == self@,
    {
        Ke1Message { client_nonce: copy_bytes(self.client_nonce()), client_e_pk: self.client_e_pk.duplicate() }
    }
}

/// The client's state between the first and the third message: its
/// ephemeral private key and its nonce.
#[derive(Debug, PartialEq, Eq)]
pub struct Ke1State {
    client_e_sk: PrivateKey,
    client_nonce: Vec<u8>,
}

impl Ke1State {
    #[verifier::type_invariant]
    closed spec fn wf(self) -> bool {
        self.client_nonce@.len() == NONCE_LEN
    }

    /// The client's ephemeral private key.
    pub closed spec fn client_e_sk_spec(&self) -> Seq<u8> {
        self.client_e_sk@
    }

    /// The client's nonce.
    pub closed spec fn client_nonce_spec(&self) -> Seq<u8> {
        self.client_nonce@
    }

    /// The client's ephemeral private key, borrowed.
    pub fn client_e_sk(&self) -> (r: &PrivateKey)
        ensures
            r@ == self.client_e_sk_spec(),
    {
        &self.client_e_sk
    }
}

/// The first step's outcome: the client's state and the first message.
pub struct GenerateKe1Result {
    pub state: Ke1State,
    pub message: Ke1Message,
}

/// A fresh nonce.
pub fn generate_nonce(rng: &mut rand::rngs::StdRng) -> (r: Vec<u8>)
    ensures
        r@.len() == NONCE_LEN,
{
    random_bytes(rng, NONCE_LEN)
}

/// The first step from the client's ephemeral private key and nonce: the
/// message carries the nonce and the key's public key.
pub fn generate_ke1_with(client_e_sk: PrivateKey, client_nonce: Vec<u8>) -> (r: GenerateKe1Result)
    requires
        client_nonce@.len() == NONCE_LEN,
    ensures
        r.state.client_e_sk_spec() == client_e_sk@,
        r.state.client_nonce_spec() == client_nonce@,
        r.message@ == (Ke1MessageView { client_nonce: client_nonce@, client_e_pk: public_key_spec(client_e_sk@) }),
{
    let keypair = KeyPair::from_private_key(client_e_sk);
    let client_e_pk = keypair.public().duplicate();
    let message = Ke1Message { client_nonce: copy_bytes(client_nonce.as_slice()), client_e_pk };
    let state = Ke1State { client_e_sk: keypair.private().duplicate(), client_nonce };
    GenerateKe1Result { state, message }
}

/// The first step: a fresh ephemeral key pair and nonce for the client.
/// The message carries the nonce and the public key that belong to the state.
pub fn generate_ke1(rng: &mut rand::rngs::StdRng) -> (r: Result<GenerateKe1Result, ProtocolError>)
    ensures
        r is Ok,
        r.unwrap().message@ == (Ke1MessageView {
            client_nonce: r.unwrap().state.client_nonce_spec(),
            client_e_pk: public_key_spec(r.unwrap().state.client_e_sk_spec()),
        }),
{
    let client_e_sk = NistP256::random_sk(rng);
    let client_nonce = generate_nonce(rng);
    Ok(generate_ke1_with(client_e_sk, client_nonce))
}

//////////////////////////
// The key schedule
//////////////////////////

/// The keys derived from the shared secrets and the transcript.
pub struct KeySchedule {
    pub handshake_secret: Seq<u8>,
    pub session_key: Seq<u8>,
    pub km2: Seq<u8>,
    pub km3: Seq<u8>,
}

/// The info string of HKDF-Expand-Label: the output length (two bytes),
/// then `"OPAQUE-" + label` and `context`, each preceded by its length as
/// one byte.
pub open spec fn custom_label(label: Seq<u8>, context: Seq<u8>) -> Seq<u8> {
    i2osp_2_spec(HASH_LEN as nat) + seq![(STR_OPAQUE@.len() + label.len()) as u8] + STR_OPAQUE@ + label
        + seq![context.len() as u8] + context
}

/// HKDF-Expand-Label with SHA-256.
pub open spec fn expand_label_spec(secret: Seq<u8>, label: Seq<u8>, context: Seq<u8>) -> Seq<u8> {
    hkdf_expand_spec(secret, custom_label(label, context))
}

/// The key schedule of the shared secrets `ikm` and the hashed transcript.
pub open spec fn derive_keys_spec(ikm: Seq<u8>, hashed_transcript: Seq<u8>) -> KeySchedule {
    let prk = hkdf_extract_spec(ikm);
    let handshake_secret = expand_label_spec(prk, STR_HANDSHAKE_SECRET@, hashed_transcript);
    KeySchedule {
        handshake_secret,
        session_key: expand_label_spec(prk, STR_SESSION_KEY@, hashed_transcript),
        km2: expand_label_spec(handshake_secret, STR_SERVER_MAC@, seq![]),
        km3: expand_label_spec(handshake_secret, STR_CLIENT_MAC@, seq![]),
    }
}

/// The derived keys.
pub struct DerivedKeys {
    pub handshake_secret: Vec<u8>,
    pub session_key: Vec<u8>,
    pub km2: Vec<u8>,
    pub km3: Vec<u8>,
}

impl View for DerivedKeys {
    type V = KeySchedule;

    open spec fn view(&self) -> KeySchedule {
        KeySchedule {
            handshake_secret: self.handshake_secret@,
            session_key: self.session_key@,
            km2: self.km2@,
            km3: self.km3@,
        }
    }
}

/// HKDF-Expand-Label with SHA-256.
///
/// Fails with [`InternalError::HkdfError`] where `secret` is shorter than a
/// hash.
pub fn hkdf_expand_label(secret: &[u8], label: &[u8], context: &[u8]) -> (r: Result<Vec<u8>, ProtocolError>)
    requires
        label@.len() + 7 < 256,
        context@.len() < 256,
    ensures
        r is Ok <==> secret@.len() >= HASH_LEN,
        r is Ok ==> r.unwrap()@ == expand_label_spec(secret@, label@, context@),
        r is Ok ==> r.unwrap()@.len() == HASH_LEN,
        r is Err ==> r == Err::<Vec<u8>, ProtocolError>(ProtocolError::LibraryError(InternalError::HkdfError)),
{
    let prefix: [u8; 7] = STR_OPAQUE;
    let mut info = Vec::new();
    info.push(0u8);
    info.push(32u8);
    info.push((7 + label.len()) as u8);
    append_bytes(&mut info, prefix.as_slice());
    append_bytes(&mut info, label);
    info.push(context.len() as u8);
    append_bytes(&mut info, context);
    assert(info@ == custom_label(label@, context@));
    match hkdf_expand(secret, info.as_slice()) {
        Some(okm) => Ok(okm),
        None => Err(ProtocolError::LibraryError(InternalError::HkdfError)),
    }
}

/// Derives the handshake secret, the session key and both MAC keys from the
/// shared secrets `ikm` and the hashed transcript.
pub fn derive_keys(ikm: &[u8], hashed_transcript: &[u8]) -> (r: Result<DerivedKeys, ProtocolError>)
    requires
        hashed_transcript@.len() == HASH_LEN,
    ensures
        r is Ok,
        r.unwrap()@ == derive_keys_spec(ikm@, hashed_transcript@),
        r.unwrap().handshake_secret@.len() == HASH_LEN,
        r.unwrap().session_key@.len() == HASH_LEN,
        r.unwrap().km2@.len() == HASH_LEN,
        r.unwrap().km3@.len() == HASH_LEN,
        r.unwrap().handshake_secret@ == hkdf_expand_spec(
            hkdf_extract_spec(ikm@),
            seq![0u8, 32u8, 22u8] + STR_OPAQUE@ + STR_HANDSHAKE_SECRET@ + seq![32u8] + hashed_transcript@,
        ),
        r.unwrap().session_key@ == hkdf_expand_spec(
            hkdf_extract_spec(ikm@),
            seq![0u8, 32u8, 17u8] + STR_OPAQUE@ + STR_SESSION_KEY@ + seq![32u8] + hashed_transcript@,
        ),
{
    let handshake_label: [u8; 15] = STR_HANDSHAKE_SECRET;
    let session_label: [u8; 10] = STR_SESSION_KEY;
    let server_label: [u8; 9] = STR_SERVER_MAC;
    let client_label: [u8; 9] = STR_CLIENT_MAC;
    let empty: Vec<u8> = Vec::new();
    let prk = hkdf_extract(ikm);
    let handshake_secret = hkdf_expand_label(prk.as_slice(), handshake_label.as_slice(), hashed_transcript)?;
    let session_key = hkdf_expand_label(prk.as_slice(), session_label.as_slice(), hashed_transcript)?;
    let km2 = hkdf_expand_label(handshake_secret.as_slice(), server_label.as_slice(), empty.as_slice())?;
    let km3 = hkdf_expand_label(handshake_secret.as_slice(), client_label.as_slice(), empty.as_slice())?;
    assert(empty@ == Seq::<u8>::empty());
    proof { lemma_key_schedule(ikm@, hashed_transcript@); }
    Ok(DerivedKeys { handshake_secret, session_key, km2, km3 })
}

//////////////////////////
// The transcript
//////////////////////////

/// The preamble that both parties hash: the protocol prefix, the context and
/// the client's identity (each preceded by its length), the credential
/// request and the first message, the server's identity (preceded by its
/// length), the credential response, the server's nonce and its ephemeral
/// public key.
pub open spec fn preamble_spec(
    context: Seq<u8>,
    client_id: Seq<u8>,
    credential_request: Seq<u8>,
    ke1: Seq<u8>,
    server_id: Seq<u8>,
    credential_response: Seq<u8>,
    server_nonce: Seq<u8>,
    server_e_pk: Seq<u8>,
) -> Seq<u8> {
    STR_OPAQUE_VERSION@ + len_prefixed(context) + len_prefixed(client_id) + credential_request + ke1
        + len_prefixed(server_id) + credential_response + server_nonce + server_e_pk
}

/// The transcript preamble of a login.
pub fn transcript(
    context: &SerializedContext,
    identifiers: &SerializedIdentifiers,
    credential_request: &[u8],
    ke1_message: &Ke1Message,
    credential_response: &[u8],
    server_nonce: &[u8],
    server_e_pk: &[u8],
) -> (r: Vec<u8>)
    ensures
        r@ == preamble_spec(
            context@,
            identifiers.client_spec(),
            credential_request@,
            ke1_bytes(ke1_message@),
            identifiers.server_spec(),
            credential_response@,
            server_nonce@,
            server_e_pk@,
        ),
        r@.len() == 9 + 2 + context@.len() + 2 + identifiers.client_spec().len() + credential_request@.len()
            + NONCE_LEN + PK_LEN + 2 + identifiers.server_spec().len() + credential_response@.len()
            + server_nonce@.len() + server_e_pk@.len(),
        r@.subrange(0, 9) == STR_OPAQUE_VERSION@,
        r@.subrange(9, 11) == seq![(context@.len() / 256) as u8, (context@.len() % 256) as u8],
        r@.subrange(11, 11 + context@.len() as int) == context@,
{
    let version: [u8; 9] = STR_OPAQUE_VERSION;
    let mut r = copy_bytes(version.as_slice());
    append_len_prefixed(&mut r, context.as_bytes());
    append_len_prefixed(&mut r, identifiers.client());
    append_bytes(&mut r, credential_request);
    let ke1 = ke1_message.serialize();
    append_bytes(&mut r, ke1.as_slice());
    append_len_prefixed(&mut r, identifiers.server());
    append_bytes(&mut r, credential_response);
    append_bytes(&mut r, server_nonce);
    append_bytes(&mut r, server_e_pk);
    proof {
        lemma_preamble_layout(
            context@,
            identifiers.client_spec(),
            credential_request@,
            ke1@,
            identifiers.server_spec(),
            credential_response@,
            server_nonce@,
            server_e_pk@,
        );
    }
    r
}

/// The server's MAC: the hashed transcript under `km2`.
pub open spec fn server_mac_spec(keys: KeySchedule, hashed_transcript: Seq<u8>) -> Seq<u8> {
    hmac_spec(keys.km2, hashed_transcript)
}

/// The client's MAC: the hash of the preamble followed by the server's MAC,
/// under `km3`.
pub open spec fn client_mac_spec(keys: KeySchedule, preamble: Seq<u8>, server_mac: Seq<u8>) -> Seq<u8> {
    hmac_spec(keys.km3, sha256_spec(preamble + server_mac))
}

/// The server's MAC and the MAC it expects from the client.
pub fn compute_ke2_macs(preamble: &[u8], keys: &DerivedKeys, transcript_digest: &[u8]) -> (r: Result<
    (Vec<u8>, Vec<u8>),
    ProtocolError,
>)
    ensures
        r is Ok,
        r.unwrap().0@ == server_mac_spec(keys@, transcript_digest@),
        r.unwrap().1@ == client_mac_spec(keys@, preamble@, server_mac_spec(keys@, transcript_digest@)),
        r.unwrap().0@.len() == HASH_LEN,
        r.unwrap().1@.len() == HASH_LEN,
{
    let server_mac = match hmac_sha256(keys.km2.as_slice(), transcript_digest) {
        Some(t) => t,
        None => return Err(ProtocolError::LibraryError(InternalError::HmacError)),
    };
    let full = concat_bytes(preamble, server_mac.as_slice());
    let full_digest = sha256(full.as_slice());
    let client_mac = match hmac_sha256(keys.km3.as_slice(), full_digest.as_slice()) {
        Some(t) => t,
        None => return Err(ProtocolError::LibraryError(InternalError::HmacError)),
    };
    Ok((server_mac, client_mac))
}

/// The client's side of the MACs: derives the keys, checks the server's MAC
/// against `ke2_mac` and computes the client's MAC.
///
/// Fails with [`ProtocolError::InvalidLoginError`] where the server's MAC
/// differs from `ke2_mac`.
pub fn finalize_ke3_transcript(preamble: &[u8], ikm: &[u8], ke2_mac: &[u8]) -> (r: Result<
    (DerivedKeys, Vec<u8>),
    ProtocolError,
>)
    ensures
        ({
            let th = sha256_spec(preamble@);
            let keys = derive_keys_spec(ikm@, th);
            let server_mac = server_mac_spec(keys, th);
            &&& r is Ok <==> server_mac == ke2_mac@
            &&& r is Ok ==> r.unwrap().0@ == keys
            &&& r is Ok ==> r.unwrap().1@ == client_mac_spec(keys, preamble@, server_mac)
            &&& r is Ok ==> r.unwrap().1@.len() == HASH_LEN
            &&& r is Ok ==> r.unwrap().0.session_key@.len() == HASH_LEN
            &&& r is Err ==> r == Err::<(DerivedKeys, Vec<u8>), ProtocolError>(ProtocolError::InvalidLoginError)
        }),
{
    let transcript_digest = sha256(preamble);
    let keys = derive_keys(ikm, transcript_digest.as_slice())?;
    let (server_mac, client_mac) = compute_ke2_macs(preamble, &keys, transcript_digest.as_slice())?;
    if !ct_eq(server_mac.as_slice(), ke2_mac) {
        return Err(ProtocolError::InvalidLoginError);
    }
    Ok((keys, client_mac))
}

//////////////////////////
// Laws
//////////////////////////

/// A first message read back from its bytes, with anything after them, is
/// the same message, and what came after is left.
pub proof fn lemma_ke1_roundtrip(v: Ke1MessageView, rest: Seq<u8>)
    requires
        v.client_nonce.len() == NONCE_LEN,
        pk_bytes_ok(v.client_e_pk),
    ensures
        ke1_take_spec(ke1_bytes(v) + rest) == (Some(v), rest),
{
    let s = ke1_bytes(v) + rest;
    let r1 = v.client_e_pk + rest;
    assert(s.subrange(0, NONCE_LEN as int) =~= v.client_nonce);
    assert(s.subrange(NONCE_LEN as int, s.len() as int) =~= r1);
    assert(r1.subrange(0, PK_LEN as int) =~= v.client_e_pk);
    assert(r1.subrange(PK_LEN as int, r1.len() as int) =~= rest);
}

/// What is read as a first message is exactly the bytes it was read from.
pub proof fn lemma_ke1_take_bytes(input: Seq<u8>)
    ensures
        ke1_take_spec(input).0 is Some ==> {
            let v = ke1_take_spec(input).0.unwrap();
            &&& ke1_bytes(v) + ke1_take_spec(input).1 == input
            &&& v.client_nonce.len() == NONCE_LEN
            &&& pk_bytes_ok(v.client_e_pk)
        },
{
    if ke1_take_spec(input).0 is Some {
        let v = ke1_take_spec(input).0.unwrap();
        let r1 = input.subrange(NONCE_LEN as int, input.len() as int);
        let r2 = r1.subrange(PK_LEN as int, r1.len() as int);
        assert(v.client_e_pk + r2 =~= r1);
        assert(ke1_bytes(v) + r2 =~= input);
    }
}

/// The key schedule, label by label: the pseudorandom key is HKDF-Extract of
/// the shared secrets; the handshake secret and the session key are
/// HKDF-Expand of it with the info `00 20`, the length of `"OPAQUE-"` and the
/// label, `"OPAQUE-"`, the label, the length of the hashed transcript and the
/// hashed transcript; the MAC keys are HKDF-Expand of the handshake secret
/// with the labels `"ServerMAC"` and `"ClientMAC"` and an empty context.
pub proof fn lemma_key_schedule(ikm: Seq<u8>, hashed_transcript: Seq<u8>)
    requires
        hashed_transcript.len() == HASH_LEN,
    ensures
        ({
            let keys = derive_keys_spec(ikm, hashed_transcript);
            let prk = hkdf_extract_spec(ikm);
            &&& keys.handshake_secret == hkdf_expand_spec(
                prk,
                seq![0u8, 32u8, 22u8] + STR_OPAQUE@ + STR_HANDSHAKE_SECRET@ + seq![32u8] + hashed_transcript,
            )
            &&& keys.session_key == hkdf_expand_spec(
                prk,
                seq![0u8, 32u8, 17u8] + STR_OPAQUE@ + STR_SESSION_KEY@ + seq![32u8] + hashed_transcript,
            )
            &&& keys.km2 == hkdf_expand_spec(
                keys.handshake_secret,
                seq![0u8, 32u8, 16u8] + STR_OPAQUE@ + STR_SERVER_MAC@ + seq![0u8],
            )
            &&& keys.km3 == hkdf_expand_spec(
                keys.handshake_secret,
                seq![0u8, 32u8, 16u8] + STR_OPAQUE@ + STR_CLIENT_MAC@ + seq![0u8],
            )
        }),
{
    let th = hashed_transcript;
    assert(i2osp_2_spec(HASH_LEN as nat) =~= seq![0u8, 32u8]);
    assert(custom_label(STR_HANDSHAKE_SECRET@, th)
        =~= seq![0u8, 32u8, 22u8] + STR_OPAQUE@ + STR_HANDSHAKE_SECRET@ + seq![32u8] + th);
    assert(custom_label(STR_SESSION_KEY@, th)
        =~= seq![0u8, 32u8, 17u8] + STR_OPAQUE@ + STR_SESSION_KEY@ + seq![32u8] + th);
    assert(custom_label(STR_SERVER_MAC@, seq![]) =~= seq![0u8, 32u8, 16u8] + STR_OPAQUE@ + STR_SERVER_MAC@ + seq![0u8]);
    assert(custom_label(STR_CLIENT_MAC@, seq![]) =~= seq![0u8, 32u8, 16u8] + STR_OPAQUE@ + STR_CLIENT_MAC@ + seq![0u8]);
}

/// The preamble, field by field, for every context (the empty one too): the
/// 9 bytes `"OPAQUEv1-"`, the context's length in two big-endian bytes and
/// the context, the client's identity likewise, the credential request, the
/// first message, the server's identity likewise, the credential response,
/// the server's nonce and its ephemeral public key, back to back and nothing
/// else.
#[verifier::spinoff_prover]
#[verifier::rlimit(40)]
pub proof fn lemma_preamble_layout(
    context: Seq<u8>,
    client_id: Seq<u8>,
    credential_request: Seq<u8>,
    ke1: Seq<u8>,
    server_id: Seq<u8>,
    credential_response: Seq<u8>,
    server_nonce: Seq<u8>,
    server_e_pk: Seq<u8>,
)
    ensures
        ({
            let p = preamble_spec(
                context,
                client_id,
                credential_request,
                ke1,
                server_id,
                credential_response,
                server_nonce,
                server_e_pk,
            );
            let o1: int = 11 + context.len() as int;
            let o2: int = o1 + 2;
            let o3: int = o2 + client_id.len();
            let o4: int = o3 + credential_request.len();
            let o5: int = o4 + ke1.len();
            let o6: int = o5 + 2;
            let o7: int = o6 + server_id.len();
            let o8: int = o7 + credential_response.len();
            let o9: int = o8 + server_nonce.len();
            &&& p.len() == 9 + 2 + context.len() + 2 + client_id.len() + credential_request.len() + ke1.len() + 2
                + server_id.len() + credential_response.len() + server_nonce.len() + server_e_pk.len()
            &&& p.subrange(0, 9) == STR_OPAQUE_VERSION@
            &&& p.subrange(9, 11) == seq![(context.len() / 256) as u8, (context.len() % 256) as u8]
            &&& p.subrange(11, o1) == context
            &&& p.subrange(o1, o2) == seq![(client_id.len() / 256) as u8, (client_id.len() % 256) as u8]
            &&& p.subrange(o2, o3) == client_id
            &&& p.subrange(o3, o4) == credential_request
            &&& p.subrange(o4, o5) == ke1
            &&& p.subrange(o5, o6) == seq![(server_id.len() / 256) as u8, (server_id.len() % 256) as u8]
            &&& p.subrange(o6, o7) == server_id
            &&& p.subrange(o7, o8) == credential_response
            &&& p.subrange(o8, o9) == server_nonce
            &&& p.subrange(o9, p.len() as int) == server_e_pk
        }),
{
    let p = preamble_spec(
        context,
        client_id,
        credential_request,
        ke1,
        server_id,
        credential_response,
        server_nonce,
        server_e_pk,
    );
    let o1: int = 11 + context.len() as int;
    let o2: int = o1 + 2;
    let o3: int = o2 + client_id.len();
    let o4: int = o3 + credential_request.len();
    let o5: int = o4 + ke1.len();
    let o6: int = o5 + 2;
    let o7: int = o6 + server_id.len();
    let o8: int = o7 + credential_response.len();
    let o9: int = o8 + server_nonce.len();
    assert(p.subrange(0, 9) =~= STR_OPAQUE_VERSION@);
    assert(p.subrange(9, 11) =~= seq![(context.len() / 256) as u8, (context.len() % 256) as u8]);
    assert(p.subrange(11, o1) =~= context);
    assert(p.subrange(o1, o2) =~= seq![(client_id.len() / 256) as u8, (client_id.len() % 256) as u8]);
    assert(p.subrange(o2, o3) =~= client_id);
    assert(p.subrange(o3, o4) =~= credential_request);
    assert(p.subrange(o4, o5) =~= ke1);
    assert(p.subrange(o5, o6) =~= seq![(server_id.len() / 256) as u8, (server_id.len() % 256) as u8]);
    assert(p.subrange(o6, o7) =~= server_id);
    assert(p.subrange(o7, o8) =~= credential_response);
    assert(p.subrange(o8, o9) =~= server_nonce);
    assert(p.subrange(o9, p.len() as int) =~= server_e_pk);
}

/// The bytes of a first message: the nonce in bytes 0 to 32, the client's
/// ephemeral public key in bytes 32 to 65.
pub proof fn lemma_ke1_layout(v: Ke1MessageView)
    requires
        v.client_nonce.len() == NONCE_LEN,
        v.client_e_pk.len() == PK_LEN,
    ensures
        ke1_bytes(v).len() == 65,
        ke1_bytes(v).subrange(0, 32) == v.client_nonce,
        ke1_bytes(v).subrange(32, 65) == v.client_e_pk,
{
    assert(ke1_bytes(v).subrange(0, 32) =~= v.client_nonce);
    assert(ke1_bytes(v).subrange(32, 65) =~= v.client_e_pk);
}

/// Reading a first message: it succeeds exactly where there are at least 65
/// bytes and bytes 32 to 65 encode a public key; the nonce is the first 32
/// bytes, the key the next 33, and what follows is left.
pub proof fn lemma_ke1_take_layout(input: Seq<u8>)
    ensures
        ke1_take_spec(input).0 is Some <==> (input.len() >= 65 && is_valid_pk(input.subrange(32, 65))),
        ke1_take_spec(input).0 is Some ==> {
            let v = ke1_take_spec(input).0.unwrap();
            &&& v.client_nonce == input.subrange(0, 32)
            &&& v.client_e_pk == input.subrange(32, 65)
            &&& ke1_take_spec(input).1 == input.subrange(65, input.len() as int)
        },
{
    if input.len() >= 32 {
        let r1 = input.subrange(32, input.len() as int);
        if r1.len() >= 33 {
            assert(r1.subrange(0, 33) =~= input.subrange(32, 65));
            assert(r1.subrange(33, r1.len() as int) =~= input.subrange(65, input.len() as int));
        }
    }
}

/// A party's identity is the one it was given where there is one, and else
/// the encoding of its public key.
pub proof fn lemma_identifier(id: Option<&[u8]>, pk: Seq<u8>)
    ensures
        id is Some ==> identifier_spec(id, pk) == id.unwrap()@,
        id is None ==> identifier_spec(id, pk) == pk,
{
}

} // verus!
