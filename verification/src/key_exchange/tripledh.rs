//! The Triple Diffie-Hellman key exchange of the login step.
//!
//! The server answers the client's first message with its nonce, its
//! ephemeral public key and a MAC over the transcript; the client checks that
//! MAC and answers with its own; the server checks the client's MAC. Both end
//! with the same session key, derived from three Diffie-Hellman secrets.
use vstd::prelude::*;
use crate::errors::ProtocolError;
use crate::hash::{ct_eq, hmac_spec, sha256, sha256_spec, HASH_LEN};
use crate::key_exchange::group::elliptic_curve::{dh_spec, is_valid_pk, public_key_spec, take_pk_spec, NistP256};
use crate::key_exchange::group::PK_LEN;
use crate::key_exchange::shared::{
    client_mac_spec, compute_ke2_macs, derive_keys, derive_keys_spec, finalize_ke3_transcript,
    generate_ke1, generate_nonce, ke1_bytes, preamble_spec, server_mac_spec, transcript,
    GenerateKe1Result, Identifiers, Ke1Message, Ke1MessageView, Ke1State, SerializedContext,
    SerializedIdentifiers, NONCE_LEN,
};
use crate::keypair::{pk_bytes_ok, sk_bytes_ok, KeyPair, PrivateKey, PublicKey};
use crate::serialization::{append_bytes, concat_bytes, copy_bytes, take_array, take_spec};

verus! {

/// The Triple Diffie-Hellman key exchange over P-256 with SHA-256.
pub struct TripleDh;

//////////////////////////
// Views
//////////////////////////

/// What the server keeps after the second message.
pub struct Ke2StateView {
    pub session_key: Seq<u8>,
    pub expected_mac: Seq<u8>,
}

/// What the server's builder for the second message holds.
pub struct Ke2BuilderView {
    pub server_nonce: Seq<u8>,
    pub preamble: Seq<u8>,
    pub client_e_pk: Seq<u8>,
    pub server_e_pk: Seq<u8>,
    pub shared_secret_1: Seq<u8>,
    pub shared_secret_3: Seq<u8>,
}

/// What the second message holds.
pub struct Ke2MessageView {
    pub server_nonce: Seq<u8>,
    pub server_e_pk: Seq<u8>,
    pub mac: Seq<u8>,
}

//////////////////////////
// Types
//////////////////////////

/// The server state produced after the second key exchange message.
#[derive(Debug, PartialEq, Eq)]
pub struct Ke2State {
    session_key: Vec<u8>,
    expected_mac: Vec<u8>,
}

/// Builder for the second key exchange message.
#[derive(Debug, PartialEq, Eq)]
pub struct Ke2Builder {
    server_nonce: Vec<u8>,
    preamble: Vec<u8>,
    client_e_pk: PublicKey,
    server_e_pk: PublicKey,
    shared_secret_1: Vec<u8>,
    shared_secret_3: Vec<u8>,
}

/// The second key exchange message.
#[derive(Debug, PartialEq, Eq)]
pub struct Ke2Message {
    server_nonce: Vec<u8>,
    server_e_pk: PublicKey,
    mac: Vec<u8>,
}

/// The third key exchange message.
#[derive(Debug, PartialEq, Eq)]
pub struct Ke3Message {
    mac: Vec<u8>,
}

/// The outcome of the server's second step: its state and the second message.
pub struct GenerateKe2Result {
    pub state: Ke2State,
    pub message: Ke2Message,
}

/// The outcome of the client's last step: the session key and the third
/// message.
pub struct GenerateKe3Result {
    pub session_key: Vec<u8>,
    pub message: Ke3Message,
}

impl View for Ke2State {
    type V = Ke2StateView;

    closed spec fn view(&self) -> Ke2StateView {
        Ke2StateView { session_key: self.session_key@, expected_mac: self.expected_mac@ }
    }
}

impl View for Ke2Builder {
    type V = Ke2BuilderView;

    closed spec fn view(&self) -> Ke2BuilderView {
        Ke2BuilderView {
            server_nonce: self.server_nonce@,
            preamble: self.preamble@,
            client_e_pk: self.client_e_pk@,
            server_e_pk: self.server_e_pk@,
            shared_secret_1: self.shared_secret_1@,
            shared_secret_3: self.shared_secret_3@,
        }
    }
}

impl View for Ke2Message {
    type V = Ke2MessageView;

    closed spec fn view(&self) -> Ke2MessageView {
        Ke2MessageView { server_nonce: self.server_nonce@, server_e_pk: self.server_e_pk@, mac: self.mac@ }
    }
}

impl View for Ke3Message {
    type V = Seq<u8>;

    closed spec fn view(&self) -> Seq<u8> {
        self.mac@
    }
}

/// A MAC or key of the hash's length.
pub open spec fn hash_len(s: Seq<u8>) -> bool {
    s.len() == HASH_LEN
}

impl Ke2State {
    #[verifier::type_invariant]
    closed spec fn wf(self) -> bool {
        hash_len(self.session_key@) && hash_len(self.expected_mac@)
    }
}

impl Ke2Builder {
    #[verifier::type_invariant]
    closed spec fn wf(self) -> bool {
        &&& self.server_nonce@.len() == NONCE_LEN
        &&& self.shared_secret_1@.len() == PK_LEN
        &&& self.shared_secret_3@.len() == PK_LEN
    }
}

impl Ke2Message {
    #[verifier::type_invariant]
    closed spec fn wf(self) -> bool {
        self.server_nonce@.len() == NONCE_LEN && hash_len(self.mac@)
    }
}

impl Ke3Message {
    #[verifier::type_invariant]
    closed spec fn wf(self) -> bool {
        hash_len(self.mac@)
    }
}

//////////////////////////
// The protocol, stated
//////////////////////////

/// The builder that the server makes from its ephemeral private key and nonce.
pub open spec fn ke2_builder_spec(
    server_e_sk: Seq<u8>,
    server_nonce: Seq<u8>,
    credential_request: Seq<u8>,
    ke1: Ke1MessageView,
    credential_response: Seq<u8>,
    client_s_pk: Seq<u8>,
    client_id: Seq<u8>,
    server_id: Seq<u8>,
    context: Seq<u8>,
) -> Ke2BuilderView {
    let server_e_pk = public_key_spec(server_e_sk);
    Ke2BuilderView {
        server_nonce,
        preamble: preamble_spec(
            context,
            client_id,
            credential_request,
            ke1_bytes(ke1),
            server_id,
            credential_response,
            server_nonce,
            server_e_pk,
        ),
        client_e_pk: ke1.client_e_pk,
        server_e_pk,
        shared_secret_1: dh_spec(server_e_sk, ke1.client_e_pk),
        shared_secret_3: dh_spec(server_e_sk, client_s_pk),
    }
}

/// The server's state and second message, from its builder and the second
/// shared secret.
pub open spec fn build_ke2_spec(b: Ke2BuilderView, shared_secret_2: Seq<u8>) -> (Ke2StateView, Ke2MessageView) {
    let th = sha256_spec(b.preamble);
    let keys = derive_keys_spec(b.shared_secret_1 + shared_secret_2 + b.shared_secret_3, th);
    let server_mac = server_mac_spec(keys, th);
    (
        Ke2StateView {
            session_key: keys.session_key,
            expected_mac: client_mac_spec(keys, b.preamble, server_mac),
        },
        Ke2MessageView { server_nonce: b.server_nonce, server_e_pk: b.server_e_pk, mac: server_mac },
    )
}

/// The client's session key and MAC, or `None` where the server's MAC in the
/// second message does not check out.
pub open spec fn generate_ke3_spec(
    credential_request: Seq<u8>,
    ke1: Ke1MessageView,
    credential_response: Seq<u8>,
    client_e_sk: Seq<u8>,
    ke2: Ke2MessageView,
    server_s_pk: Seq<u8>,
    client_s_sk: Seq<u8>,
    client_id: Seq<u8>,
    server_id: Seq<u8>,
    context: Seq<u8>,
) -> Option<(Seq<u8>, Seq<u8>)> {
    let preamble = preamble_spec(
        context,
        client_id,
        credential_request,
        ke1_bytes(ke1),
        server_id,
        credential_response,
        ke2.server_nonce,
        ke2.server_e_pk,
    );
    let ikm = dh_spec(client_e_sk, ke2.server_e_pk) + dh_spec(client_e_sk, server_s_pk) + dh_spec(
        client_s_sk,
        ke2.server_e_pk,
    );
    let th = sha256_spec(preamble);
    let keys = derive_keys_spec(ikm, th);
    let server_mac = server_mac_spec(keys, th);
    if server_mac == ke2.mac {
        Some((keys.session_key, client_mac_spec(keys, preamble, server_mac)))
    } else {
        None
    }
}

/// The server's session key where the client's MAC is the one it expects.
pub open spec fn finish_ke_spec(state: Ke2StateView, ke3_mac: Seq<u8>) -> Option<Seq<u8>> {
    if state.expected_mac == ke3_mac {
        Some(state.session_key)
    } else {
        None
    }
}

//////////////////////////
// The protocol
//////////////////////////

impl TripleDh {
    /// The client's first step: a fresh ephemeral key pair and nonce.
    pub fn generate_ke1(rng: &mut rand::rngs::StdRng) -> (r: Result<GenerateKe1Result, ProtocolError>)
        ensures
            r is Ok,
            r.unwrap().message@ == (Ke1MessageView {
                client_nonce: r.unwrap().state.client_nonce_spec(),
                client_e_pk: public_key_spec(r.unwrap().state.client_e_sk_spec()),
            }),
    {
        generate_ke1(rng)
    }

    /// The server's builder from a given ephemeral private key and nonce: it
    /// holds the transcript preamble and the first and third shared secrets.
    pub fn ke2_builder_with(
        server_e_sk: PrivateKey,
        server_nonce: Vec<u8>,
        credential_request: &[u8],
        ke1_message: Ke1Message,
        credential_response: &[u8],
        client_s_pk: PublicKey,
        identifiers: &SerializedIdentifiers,
        context: &SerializedContext,
    ) -> (r: Ke2Builder)
        requires
            server_nonce@.len() == NONCE_LEN,
        ensures
            r@ == ke2_builder_spec(
                server_e_sk@,
                server_nonce@,
                credential_request@,
                ke1_message@,
                credential_response@,
                client_s_pk@,
                identifiers.client_spec(),
                identifiers.server_spec(),
                context@,
            ),
    {
        let server_e = KeyPair::from_private_key(server_e_sk);
        let server_e_pk = server_e.public().duplicate();
        let preamble = transcript(
            context,
            identifiers,
            credential_request,
            &ke1_message,
            credential_response,
            server_nonce.as_slice(),
            server_e_pk.as_bytes(),
        );
        let shared_secret_1 = server_e.private().ke_diffie_hellman(ke1_message.client_e_pk());
        let shared_secret_3 = server_e.private().ke_diffie_hellman(&client_s_pk);
        Ke2Builder {
            server_nonce,
            preamble,
            client_e_pk: ke1_message.client_e_pk().duplicate(),
            server_e_pk,
            shared_secret_1,
            shared_secret_3,
        }
    }

    /// The server's builder for the second message, with a fresh ephemeral
    /// key pair and nonce.
    pub fn ke2_builder(
        rng: &mut rand::rngs::StdRng,
        credential_request: &[u8],
        ke1_message: Ke1Message,
        credential_response: &[u8],
        client_s_pk: PublicKey,
        identifiers: &SerializedIdentifiers,
        context: &SerializedContext,
    ) -> (r: Result<Ke2Builder, ProtocolError>)
        ensures
            r is Ok,
            exists|server_e_sk: Seq<u8>, server_nonce: Seq<u8>|
                sk_bytes_ok(server_e_sk) && server_nonce.len() == NONCE_LEN && r.unwrap()@ == ke2_builder_spec(
                    server_e_sk,
                    server_nonce,
                    credential_request@,
                    ke1_message@,
                    credential_response@,
                    client_s_pk@,
                    identifiers.client_spec(),
                    identifiers.server_spec(),
                    context@,
                ),
    {
        let server_e_sk = NistP256::random_sk(rng);
        let server_nonce = generate_nonce(rng);
        let b = TripleDh::ke2_builder_with(
            server_e_sk,
            server_nonce,
            credential_request,
            ke1_message,
            credential_response,
            client_s_pk,
            identifiers,
            context,
        );
        Ok(b)
    }

    /// The client's ephemeral public key, which the server's static key
    /// meets in the second shared secret.
    pub fn ke2_builder_data(builder: &Ke2Builder) -> (r: &PublicKey)
        ensures
            r@ == builder@.client_e_pk,
    {
        &builder.client_e_pk
    }

    /// The second shared secret: the server's static private key with the
    /// client's ephemeral public key. `rng` is not used.
    pub fn generate_ke2_input(builder: &Ke2Builder, rng: &mut rand::rngs::StdRng, server_s_sk: &PrivateKey) -> (r: Vec<u8>)
        ensures
            *final(rng) == *old(rng),
            r@ == dh_spec(server_s_sk@, builder@.client_e_pk),
            r@.len() == PK_LEN,
    {
        server_s_sk.ke_diffie_hellman(&builder.client_e_pk)
    }

    /// The server's second step: derives the keys from the three shared
    /// secrets and the transcript, and produces the state it keeps and the
    /// second message with its MAC.
    pub fn build_ke2(builder: Ke2Builder, shared_secret_2: Vec<u8>) -> (r: Result<GenerateKe2Result, ProtocolError>)
        ensures
            r is Ok,
            r.unwrap().state@ == build_ke2_spec(builder@, shared_secret_2@).0,
            r.unwrap().message@ == build_ke2_spec(builder@, shared_secret_2@).1,
            ({
                let th = sha256_spec(builder@.preamble);
                let keys = derive_keys_spec(
                    builder@.shared_secret_1 + shared_secret_2@ + builder@.shared_secret_3,
                    th,
                );
                &&& r.unwrap().state@.session_key == keys.session_key
                &&& r.unwrap().message@.mac == hmac_spec(keys.km2, th)
                &&& r.unwrap().state@.expected_mac == hmac_spec(
                    keys.km3,
                    sha256_spec(builder@.preamble + hmac_spec(keys.km2, th)),
                )
            }),
    {
        proof { use_type_invariant(&builder); }
        let transcript_digest = sha256(builder.preamble.as_slice());
        let mut ikm = concat_bytes(builder.shared_secret_1.as_slice(), shared_secret_2.as_slice());
        append_bytes(&mut ikm, builder.shared_secret_3.as_slice());
        let derived_keys = derive_keys(ikm.as_slice(), transcript_digest.as_slice())?;
        let (mac, expected_mac) = compute_ke2_macs(
            builder.preamble.as_slice(),
            &derived_keys,
            transcript_digest.as_slice(),
        )?;
        let ghost keys = derived_keys@;
        Ok(GenerateKe2Result {
            state: Ke2State { session_key: derived_keys.session_key, expected_mac },
            message: Ke2Message { server_nonce: builder.server_nonce, server_e_pk: builder.server_e_pk, mac },
        })
    }

    /// The client's last step: checks the server's MAC in the second message
    /// against the keys it derives from its three shared secrets, and answers
    /// with its own MAC.
    ///
    /// Fails with [`ProtocolError::InvalidLoginError`] where the server's MAC
    /// does not check out. `rng` is not used.
    pub fn generate_ke3(
        rng: &mut rand::rngs::StdRng,
        credential_request: &[u8],
        ke1_message: Ke1Message,
        credential_response: &[u8],
        ke1_state: &Ke1State,
        ke2_message: Ke2Message,
        server_s_pk: PublicKey,
        client_s_sk: PrivateKey,
        identifiers: &SerializedIdentifiers,
        context: &SerializedContext,
    ) -> (r: Result<GenerateKe3Result, ProtocolError>)
        ensures
            ({
                let outcome = generate_ke3_spec(
                    credential_request@,
                    ke1_message@,
                    credential_response@,
                    ke1_state.client_e_sk_spec(),
                    ke2_message@,
                    server_s_pk@,
                    client_s_sk@,
                    identifiers.client_spec(),
                    identifiers.server_spec(),
                    context@,
                );
                &&& r is Ok <==> outcome is Some
                &&& r is Ok ==> r.unwrap().session_key@ == outcome.unwrap().0
                &&& r is Ok ==> r.unwrap().message@ == outcome.unwrap().1
                &&& r is Err ==> r == Err::<GenerateKe3Result, ProtocolError>(ProtocolError::InvalidLoginError)
            }),
            *final(rng) == *old(rng),
            ({
                let preamble = preamble_spec(
                    context@,
                    identifiers.client_spec(),
                    credential_request@,
                    ke1_message@.client_nonce + ke1_message@.client_e_pk,
                    identifiers.server_spec(),
                    credential_response@,
                    ke2_message@.server_nonce,
                    ke2_message@.server_e_pk,
                );
                let ikm = dh_spec(ke1_state.client_e_sk_spec(), ke2_message@.server_e_pk) + dh_spec(
                    ke1_state.client_e_sk_spec(),
                    server_s_pk@,
                ) + dh_spec(client_s_sk@, ke2_message@.server_e_pk);
                let th = sha256_spec(preamble);
                let keys = derive_keys_spec(ikm, th);
                &&& r is Ok <==> ke2_message@.mac == hmac_spec(keys.km2, th)
                &&& r is Ok ==> r.unwrap().session_key@ == keys.session_key
                &&& r is Ok ==> r.unwrap().message@ == hmac_spec(keys.km3, sha256_spec(preamble + ke2_message@.mac))
            }),
    {
        let server_e_pk = ke2_message.server_e_pk.as_bytes();
        let preamble = transcript(
            context,
            identifiers,
            credential_request,
            &ke1_message,
            credential_response,
            ke2_message.server_nonce.as_slice(),
            server_e_pk,
        );
        let shared_secret_1 = ke1_state.client_e_sk().ke_diffie_hellman(&ke2_message.server_e_pk);
        let shared_secret_2 = ke1_state.client_e_sk().ke_diffie_hellman(&server_s_pk);
        let shared_secret_3 = client_s_sk.ke_diffie_hellman(&ke2_message.server_e_pk);
        let mut ikm = concat_bytes(shared_secret_1.as_slice(), shared_secret_2.as_slice());
        append_bytes(&mut ikm, shared_secret_3.as_slice());
        let (derived_keys, client_mac) = finalize_ke3_transcript(
            preamble.as_slice(),
            ikm.as_slice(),
            ke2_message.mac.as_slice(),
        )?;
        Ok(GenerateKe3Result { session_key: derived_keys.session_key, message: Ke3Message { mac: client_mac } })
    }

    /// The server's last step: accepts the client's third message where its
    /// MAC is the one expected, and gives the session key.
    ///
    /// Fails with [`ProtocolError::InvalidLoginError`] where the MAC differs.
    pub fn finish_ke(
        ke2_state: &Ke2State,
        ke3_message: Ke3Message,
        _identifiers: Identifiers,
        _context: &SerializedContext,
    ) -> (r: Result<Vec<u8>, ProtocolError>)
        ensures
            r is Ok <==> finish_ke_spec(ke2_state@, ke3_message@) is Some,
            r is Ok ==> r.unwrap()@ == finish_ke_spec(ke2_state@, ke3_message@).unwrap(),
            r is Err ==> r == Err::<Vec<u8>, ProtocolError>(ProtocolError::InvalidLoginError),
    {
        if ct_eq(ke2_state.expected_mac.as_slice(), ke3_message.mac.as_slice()) {
            Ok(copy_bytes(ke2_state.session_key.as_slice()))
        } else {
            Err(ProtocolError::InvalidLoginError)
        }
    }
}

//////////////////////////
// Serialization
//////////////////////////

/// The bytes of the server state: session key, then expected MAC.
pub open spec fn ke2_state_bytes(v: Ke2StateView) -> Seq<u8> {
    v.session_key + v.expected_mac
}

/// What taking a server state from the front of `input` gives.
pub open spec fn ke2_state_take_spec(input: Seq<u8>) -> (Option<Ke2StateView>, Seq<u8>) {
    let (session_key, rest) = take_spec(input, HASH_LEN as nat);
    match session_key {
        None => (None, rest),
        Some(session_key) => {
            let (expected_mac, rest) = take_spec(rest, HASH_LEN as nat);
            match expected_mac {
                None => (None, rest),
                Some(expected_mac) => (Some(Ke2StateView { session_key, expected_mac }), rest),
            }
        },
    }
}

/// The bytes of the second message: nonce, public key, MAC.
pub open spec fn ke2_message_bytes(v: Ke2MessageView) -> Seq<u8> {
    v.server_nonce + v.server_e_pk + v.mac
}

/// What taking a second message from the front of `input` gives.
pub open spec fn ke2_message_take_spec(input: Seq<u8>) -> (Option<Ke2MessageView>, Seq<u8>) {
    let (server_nonce, rest) = take_spec(input, NONCE_LEN as nat);
    match server_nonce {
        None => (None, rest),
        Some(server_nonce) => {
            let (server_e_pk, rest) = take_pk_spec(rest);
            match server_e_pk {
                None => (None, rest),
                Some(server_e_pk) => {
                    let (mac, rest) = take_spec(rest, HASH_LEN as nat);
                    match mac {
                        None => (None, rest),
                        Some(mac) => (Some(Ke2MessageView { server_nonce, server_e_pk, mac }), rest),
                    }
                },
            }
        },
    }
}

impl Ke2Builder {
    /// A builder from its parts: the server's nonce, the transcript preamble,
    /// the client's and the server's ephemeral public keys, and the first and
    /// third shared secrets; `None` where the nonce or a secret has the wrong
    /// length.
    pub fn from_parts(
        server_nonce: Vec<u8>,
        preamble: Vec<u8>,
        client_e_pk: PublicKey,
        server_e_pk: PublicKey,
        shared_secret_1: Vec<u8>,
        shared_secret_3: Vec<u8>,
    ) -> (r: Option<Ke2Builder>)
        ensures
            r is Some <==> (server_nonce@.len() == NONCE_LEN && shared_secret_1@.len() == PK_LEN
                && shared_secret_3@.len() == PK_LEN),
            r is Some ==> r.unwrap()@ == (Ke2BuilderView {
                server_nonce: server_nonce@,
                preamble: preamble@,
                client_e_pk: client_e_pk@,
                server_e_pk: server_e_pk@,
                shared_secret_1: shared_secret_1@,
                shared_secret_3: shared_secret_3@,
            }),
    {
        if server_nonce.len() == NONCE_LEN && shared_secret_1.len() == PK_LEN && shared_secret_3.len() == PK_LEN {
            Some(Ke2Builder { server_nonce, preamble, client_e_pk, server_e_pk, shared_secret_1, shared_secret_3 })
        } else {
            None
        }
    }

    /// The server's nonce.
    pub fn server_nonce(&self) -> (r: &[u8])
        ensures
            r@ == self@.server_nonce,
    {
        self.server_nonce.as_slice()
    }

    /// The transcript preamble.
    pub fn preamble(&self) -> (r: &[u8])
        ensures
            r@ == self@.preamble,
    {
        self.preamble.as_slice()
    }

    /// The server's ephemeral public key.
    pub fn server_e_pk(&self) -> (r: &PublicKey)
        ensures
            r@ == self@.server_e_pk,
    {
        &self.server_e_pk
    }

    /// The first shared secret.
    pub fn shared_secret_1(&self) -> (r: &[u8])
        ensures
            r@ == self@.shared_secret_1,
    {
        self.shared_secret_1.as_slice()
    }

    /// The third shared secret.
    pub fn shared_secret_3(&self) -> (r: &[u8])
        ensures
            r@ == self@.shared_secret_3,
    {
        self.shared_secret_3.as_slice()
    }
}

impl Ke2State {
    /// A copy of this state.
    pub fn duplicate(&self) -> (r: Ke2State)
        ensures
            r@ == self@,
    {
        proof { use_type_invariant(self); }
        Ke2State { session_key: copy_bytes(self.session_key.as_slice()), expected_mac: copy_bytes(self.expected_mac.as_slice()) }
    }

    /// The bytes of this state.
    pub fn serialize(&self) -> (r: Vec<u8>)
        ensures
            r@ == ke2_state_bytes(self@),
            hash_len(self@.session_key),
            hash_len(self@.expected_mac),
            r@.len() == 2 * HASH_LEN,
            r@.subrange(0, 32) == self@.session_key,
            r@.subrange(32, 64) == self@.expected_mac,
            forall|rest: Seq<u8>| #[trigger] ke2_state_take_spec(r@ + rest) == (Some(self@), rest),
    {
        proof { use_type_invariant(self); }
        let r = concat_bytes(self.session_key.as_slice(), self.expected_mac.as_slice());
        proof {
            lemma_ke2_state_layout(self@);
            assert forall|rest: Seq<u8>| #[trigger] ke2_state_take_spec(r@ + rest) == (Some(self@), rest) by {
                lemma_ke2_state_roundtrip(self@, rest);
            }
        }
        r
    }

    /// Takes a server state from the front of `input`.
    ///
    /// Fails with [`ProtocolError::SerializationError`] where the input is too
    /// short.
    pub fn deserialize_take(input: &mut &[u8]) -> (r: Result<Ke2State, ProtocolError>)
        ensures
            final(input)@ == ke2_state_take_spec(old(input)@).1,
            r is Ok <==> ke2_state_take_spec(old(input)@).0 is Some,
            r is Ok ==> r.unwrap()@ == ke2_state_take_spec(old(input)@).0.unwrap(),
            r is Err ==> r == Err::<Ke2State, ProtocolError>(ProtocolError::SerializationError),
            r is Ok <==> old(input)@.len() >= 64,
            r is Ok ==> {
                &&& r.unwrap()@.session_key == old(input)@.subrange(0, 32)
                &&& r.unwrap()@.expected_mac == old(input)@.subrange(32, 64)
                &&& final(input)@ == old(input)@.subrange(64, old(input)@.len() as int)
            },
    {
        proof { lemma_ke2_state_take_layout(input@); }
        let session_key = take_array(input, HASH_LEN)?;
        let expected_mac = take_array(input, HASH_LEN)?;
        Ok(Ke2State { session_key, expected_mac })
    }
}

impl Ke2Message {
    /// A copy of this message.
    pub fn duplicate(&self) -> (r: Ke2Message)
        ensures
            r@ == self@,
    {
        proof { use_type_invariant(self); }
        Ke2Message {
            server_nonce: copy_bytes(self.server_nonce.as_slice()),
            server_e_pk: self.server_e_pk.duplicate(),
            mac: copy_bytes(self.mac.as_slice()),
        }
    }

    /// The server's nonce.
    pub fn server_nonce(&self) -> (r: &[u8])
        ensures
            r@ == self@.server_nonce,
    {
        self.server_nonce.as_slice()
    }

    /// The server's ephemeral public key.
    pub fn server_e_pk(&self) -> (r: &PublicKey)
        ensures
            r@ == self@.server_e_pk,
    {
        &self.server_e_pk
    }

    /// The bytes of this message.
    pub fn serialize(&self) -> (r: Vec<u8>)
        ensures
            r@ == ke2_message_bytes(self@),
            self@.server_nonce.len() == NONCE_LEN,
            pk_bytes_ok(self@.server_e_pk),
            hash_len(self@.mac),
            r@.len() == NONCE_LEN + PK_LEN + HASH_LEN,
            r@.subrange(0, 32) == self@.server_nonce,
            r@.subrange(32, 65) == self@.server_e_pk,
            r@.subrange(65, 97) == self@.mac,
            forall|rest: Seq<u8>| #[trigger] ke2_message_take_spec(r@ + rest) == (Some(self@), rest),
    {
        proof { use_type_invariant(self); }
        let mut r = concat_bytes(self.server_nonce.as_slice(), self.server_e_pk.as_bytes());
        append_bytes(&mut r, self.mac.as_slice());
        proof {
            lemma_ke2_message_layout(self@);
            assert forall|rest: Seq<u8>| #[trigger] ke2_message_take_spec(r@ + rest) == (Some(self@), rest) by {
                lemma_ke2_message_roundtrip(self@, rest);
            }
        }
        r
    }

    /// Takes a second message from the front of `input`.
    ///
    /// Fails with [`ProtocolError::SerializationError`] where the input is too
    /// short or the public key does not decode.
    pub fn deserialize_take(input: &mut &[u8]) -> (r: Result<Ke2Message, ProtocolError>)
        ensures
            final(input)@ == ke2_message_take_spec(old(input)@).1,
            r is Ok <==> ke2_message_take_spec(old(input)@).0 is Some,
            r is Ok ==> r.unwrap()@ == ke2_message_take_spec(old(input)@).0.unwrap(),
            r is Err ==> r == Err::<Ke2Message, ProtocolError>(ProtocolError::SerializationError),
            r is Ok <==> (old(input)@.len() >= 97 && is_valid_pk(old(input)@.subrange(32, 65))),
            r is Ok ==> {
                &&& r.unwrap()@.server_nonce == old(input)@.subrange(0, 32)
                &&& r.unwrap()@.server_e_pk == old(input)@.subrange(32, 65)
                &&& r.unwrap()@.mac == old(input)@.subrange(65, 97)
                &&& final(input)@ == old(input)@.subrange(97, old(input)@.len() as int)
            },
    {
        proof { lemma_ke2_message_take_layout(input@); }
        let server_nonce = take_array(input, NONCE_LEN)?;
        let server_e_pk = NistP256::deserialize_take_pk(input)?;
        let mac = take_array(input, HASH_LEN)?;
        Ok(Ke2Message { server_nonce, server_e_pk, mac })
    }
}

impl Ke3Message {
    /// A copy of this message.
    pub fn duplicate(&self) -> (r: Ke3Message)
        ensures
            r@ == self@,
    {
        proof { use_type_invariant(self); }
        Ke3Message { mac: copy_bytes(self.mac.as_slice()) }
    }

    /// The bytes of this message: the client's MAC.
    pub fn serialize(&self) -> (r: Vec<u8>)
        ensures
            r@ == self@,
            hash_len(self@),
            forall|rest: Seq<u8>| #[trigger] take_spec(r@ + rest, HASH_LEN as nat) == (Some(self@), rest),
    {
        proof { use_type_invariant(self); }
        let r = copy_bytes(self.mac.as_slice());
        proof {
            assert forall|rest: Seq<u8>| #[trigger] take_spec(r@ + rest, HASH_LEN as nat) == (Some(self@), rest) by {
                lemma_ke3_message_roundtrip(self@, rest);
            }
        }
        r
    }

    /// Takes a third message from the front of `input`.
    ///
    /// Fails with [`ProtocolError::SerializationError`] where the input is too
    /// short.
    pub fn deserialize_take(input: &mut &[u8]) -> (r: Result<Ke3Message, ProtocolError>)
        ensures
            final(input)@ == take_spec(old(input)@, HASH_LEN as nat).1,
            r is Ok <==> take_spec(old(input)@, HASH_LEN as nat).0 is Some,
            r is Ok ==> r.unwrap()@ == take_spec(old(input)@, HASH_LEN as nat).0.unwrap(),
            r is Err ==> r == Err::<Ke3Message, ProtocolError>(ProtocolError::SerializationError),
    {
        let mac = take_array(input, HASH_LEN)?;
        Ok(Ke3Message { mac })
    }
}

//////////////////////////
// Laws
//////////////////////////

/// A server state read back from its bytes, with anything after them, is the
/// same state, and what came after is left.
pub proof fn lemma_ke2_state_roundtrip(v: Ke2StateView, rest: Seq<u8>)
    requires
        hash_len(v.session_key),
        hash_len(v.expected_mac),
    ensures
        ke2_state_take_spec(ke2_state_bytes(v) + rest) == (Some(v), rest),
{
    let s = ke2_state_bytes(v) + rest;
    assert(s.subrange(0, HASH_LEN as int) == v.session_key);
    let r1 = s.subrange(HASH_LEN as int, s.len() as int);
    assert(r1 == v.expected_mac + rest);
    assert(r1.subrange(0, HASH_LEN as int) == v.expected_mac);
    assert(r1.subrange(HASH_LEN as int, r1.len() as int) == rest);
}

/// What is read as a server state is exactly the bytes it was read from.
pub proof fn lemma_ke2_state_take_bytes(input: Seq<u8>)
    ensures
        ke2_state_take_spec(input).0 is Some ==> {
            let v = ke2_state_take_spec(input).0.unwrap();
            &&& ke2_state_bytes(v) + ke2_state_take_spec(input).1 == input
            &&& hash_len(v.session_key)
            &&& hash_len(v.expected_mac)
        },
{
    if ke2_state_take_spec(input).0 is Some {
        let v = ke2_state_take_spec(input).0.unwrap();
        let r1 = input.subrange(HASH_LEN as int, input.len() as int);
        assert(v.expected_mac + r1.subrange(HASH_LEN as int, r1.len() as int) == r1);
        assert(ke2_state_bytes(v) + ke2_state_take_spec(input).1 == input);
    }
}

/// A second message read back from its bytes, with anything after them, is
/// the same message, and what came after is left.
pub proof fn lemma_ke2_message_roundtrip(v: Ke2MessageView, rest: Seq<u8>)
    requires
        v.server_nonce.len() == NONCE_LEN,
        pk_bytes_ok(v.server_e_pk),
        hash_len(v.mac),
    ensures
        ke2_message_take_spec(ke2_message_bytes(v) + rest) == (Some(v), rest),
{
    let s = ke2_message_bytes(v) + rest;
    assert(s.subrange(0, NONCE_LEN as int) == v.server_nonce);
    let r1 = s.subrange(NONCE_LEN as int, s.len() as int);
    assert(r1 == v.server_e_pk + v.mac + rest);
    assert(r1.subrange(0, PK_LEN as int) == v.server_e_pk);
    let r2 = r1.subrange(PK_LEN as int, r1.len() as int);
    assert(r2 == v.mac + rest);
    assert(r2.subrange(0, HASH_LEN as int) == v.mac);
    assert(r2.subrange(HASH_LEN as int, r2.len() as int) == rest);
}

/// What is read as a second message is exactly the bytes it was read from.
pub proof fn lemma_ke2_message_take_bytes(input: Seq<u8>)
    ensures
        ke2_message_take_spec(input).0 is Some ==> {
            let v = ke2_message_take_spec(input).0.unwrap();
            &&& ke2_message_bytes(v) + ke2_message_take_spec(input).1 == input
            &&& v.server_nonce.len() == NONCE_LEN
            &&& pk_bytes_ok(v.server_e_pk)
            &&& hash_len(v.mac)
        },
{
    if ke2_message_take_spec(input).0 is Some {
        let v = ke2_message_take_spec(input).0.unwrap();
        let r1 = input.subrange(NONCE_LEN as int, input.len() as int);
        let r2 = r1.subrange(PK_LEN as int, r1.len() as int);
        let r3 = r2.subrange(HASH_LEN as int, r2.len() as int);
        assert(v.mac + r3 == r2);
        assert(v.server_e_pk + r2 == r1);
        assert(ke2_message_bytes(v) + r3 == input);
    }
}

/// A third message read back from its bytes, with anything after them, is
/// the same message, and what came after is left.
pub proof fn lemma_ke3_message_roundtrip(mac: Seq<u8>, rest: Seq<u8>)
    requires
        hash_len(mac),
    ensures
        take_spec(mac + rest, HASH_LEN as nat) == (Some(mac), rest),
{
    assert((mac + rest).subrange(0, HASH_LEN as int) == mac);
    assert((mac + rest).subrange(HASH_LEN as int, (mac + rest).len() as int) == rest);
}

/// An honest login succeeds.
///
/// Where the client and the server run the exchange on the same credential
/// request and response, identities and context, and where Diffie-Hellman
/// agrees on each of the three pairs of keys (each party's private key with
/// the other's public key gives the same secret), the client accepts the
/// server's second message, the server accepts the client's third message,
/// and both hold the same session key.
pub proof fn lemma_tripledh_login_succeeds(
    client_e_sk: Seq<u8>,
    client_nonce: Seq<u8>,
    client_s_sk: Seq<u8>,
    server_e_sk: Seq<u8>,
    server_nonce: Seq<u8>,
    server_s_sk: Seq<u8>,
    credential_request: Seq<u8>,
    credential_response: Seq<u8>,
    client_id: Seq<u8>,
    server_id: Seq<u8>,
    context: Seq<u8>,
)
    requires
        dh_spec(server_e_sk, public_key_spec(client_e_sk)) == dh_spec(client_e_sk, public_key_spec(server_e_sk)),
        dh_spec(server_s_sk, public_key_spec(client_e_sk)) == dh_spec(client_e_sk, public_key_spec(server_s_sk)),
        dh_spec(server_e_sk, public_key_spec(client_s_sk)) == dh_spec(client_s_sk, public_key_spec(server_e_sk)),
    ensures
        ({
            let ke1 = Ke1MessageView { client_nonce, client_e_pk: public_key_spec(client_e_sk) };
            let builder = ke2_builder_spec(
                server_e_sk,
                server_nonce,
                credential_request,
                ke1,
                credential_response,
                public_key_spec(client_s_sk),
                client_id,
                server_id,
                context,
            );
            let (state, ke2) = build_ke2_spec(builder, dh_spec(server_s_sk, builder.client_e_pk));
            let client = generate_ke3_spec(
                credential_request,
                ke1,
                credential_response,
                client_e_sk,
                ke2,
                public_key_spec(server_s_sk),
                client_s_sk,
                client_id,
                server_id,
                context,
            );
            &&& client is Some
            &&& finish_ke_spec(state, client.unwrap().1) == Some(client.unwrap().0)
            &&& state.session_key == client.unwrap().0
        }),
{
}

/// The server's builder holds the first shared secret, of its ephemeral
/// private key with the client's ephemeral public key, and the third, of its
/// ephemeral private key with the client's static public key; the server's
/// ephemeral public key is the one of its private key, and the preamble binds
/// the context, both identities, the credential request and response, the
/// first message's nonce and key, and the server's nonce and ephemeral key.
pub proof fn lemma_tripledh_ke2_builder(
    server_e_sk: Seq<u8>,
    server_nonce: Seq<u8>,
    credential_request: Seq<u8>,
    ke1: Ke1MessageView,
    credential_response: Seq<u8>,
    client_s_pk: Seq<u8>,
    client_id: Seq<u8>,
    server_id: Seq<u8>,
    context: Seq<u8>,
)
    ensures
        ({
            let b = ke2_builder_spec(
                server_e_sk,
                server_nonce,
                credential_request,
                ke1,
                credential_response,
                client_s_pk,
                client_id,
                server_id,
                context,
            );
            &&& b.shared_secret_1 == dh_spec(server_e_sk, ke1.client_e_pk)
            &&& b.shared_secret_3 == dh_spec(server_e_sk, client_s_pk)
            &&& b.server_e_pk == public_key_spec(server_e_sk)
            &&& b.client_e_pk == ke1.client_e_pk
            &&& b.server_nonce == server_nonce
            &&& b.preamble == preamble_spec(
                context,
                client_id,
                credential_request,
                ke1.client_nonce + ke1.client_e_pk,
                server_id,
                credential_response,
                server_nonce,
                public_key_spec(server_e_sk),
            )
        }),
{
}

/// The server's second step: with `ikm` the first, second and third shared
/// secrets in that order and `th` the SHA-256 hash of the preamble, the
/// state keeps the session key of the key schedule of `ikm` and `th` (not its
/// handshake secret), the second message carries the HMAC of `th` under
/// `km2`, and the MAC expected from the client is the HMAC, under `km3`, of
/// the hash of the preamble followed by that server MAC.
pub proof fn lemma_tripledh_build_ke2(b: Ke2BuilderView, shared_secret_2: Seq<u8>)
    ensures
        ({
            let th = sha256_spec(b.preamble);
            let keys = derive_keys_spec(b.shared_secret_1 + shared_secret_2 + b.shared_secret_3, th);
            let (state, message) = build_ke2_spec(b, shared_secret_2);
            &&& state.session_key == keys.session_key
            &&& message.mac == hmac_spec(keys.km2, th)
            &&& state.expected_mac == hmac_spec(keys.km3, sha256_spec(b.preamble + message.mac))
            &&& message.server_nonce == b.server_nonce
            &&& message.server_e_pk == b.server_e_pk
        }),
{
}

/// The client's last step: with `ikm` the Diffie-Hellman secrets of its
/// ephemeral key with the server's ephemeral key, of its ephemeral key with
/// the server's static key and of its static key with the server's ephemeral
/// key, in that order, and `th` the SHA-256 hash of the preamble, it succeeds
/// exactly when the second message's MAC is the HMAC of `th` under `km2`;
/// then its session key is the session key of the key schedule of `ikm` and
/// `th`, and its MAC is the HMAC, under `km3`, of the hash of the preamble
/// followed by the server's MAC.
pub proof fn lemma_tripledh_generate_ke3(
    credential_request: Seq<u8>,
    ke1: Ke1MessageView,
    credential_response: Seq<u8>,
    client_e_sk: Seq<u8>,
    ke2: Ke2MessageView,
    server_s_pk: Seq<u8>,
    client_s_sk: Seq<u8>,
    client_id: Seq<u8>,
    server_id: Seq<u8>,
    context: Seq<u8>,
)
    ensures
        ({
            let preamble = preamble_spec(
                context,
                client_id,
                credential_request,
                ke1.client_nonce + ke1.client_e_pk,
                server_id,
                credential_response,
                ke2.server_nonce,
                ke2.server_e_pk,
            );
            let ikm = dh_spec(client_e_sk, ke2.server_e_pk) + dh_spec(client_e_sk, server_s_pk) + dh_spec(
                client_s_sk,
                ke2.server_e_pk,
            );
            let th = sha256_spec(preamble);
            let keys = derive_keys_spec(ikm, th);
            let outcome = generate_ke3_spec(
                credential_request,
                ke1,
                credential_response,
                client_e_sk,
                ke2,
                server_s_pk,
                client_s_sk,
                client_id,
                server_id,
                context,
            );
            &&& outcome is Some <==> ke2.mac == hmac_spec(keys.km2, th)
            &&& outcome is Some ==> outcome.unwrap().0 == keys.session_key
            &&& outcome is Some ==> outcome.unwrap().1 == hmac_spec(keys.km3, sha256_spec(preamble + ke2.mac))
        }),
{
}

/// The bytes of a server state: the session key in bytes 0 to 32, the
/// expected MAC in bytes 32 to 64.
pub proof fn lemma_ke2_state_layout(v: Ke2StateView)
    requires
        hash_len(v.session_key),
        hash_len(v.expected_mac),
    ensures
        ke2_state_bytes(v).len() == 64,
        ke2_state_bytes(v).subrange(0, 32) == v.session_key,
        ke2_state_bytes(v).subrange(32, 64) == v.expected_mac,
{
    assert(ke2_state_bytes(v).subrange(0, 32) =~= v.session_key);
    assert(ke2_state_bytes(v).subrange(32, 64) =~= v.expected_mac);
}

/// Reading a server state: it succeeds exactly where there are at least 64
/// bytes; the session key is the first 32, the expected MAC the next 32, and
/// what follows is left.
pub proof fn lemma_ke2_state_take_layout(input: Seq<u8>)
    ensures
        ke2_state_take_spec(input).0 is Some <==> input.len() >= 64,
        ke2_state_take_spec(input).0 is Some ==> {
            let v = ke2_state_take_spec(input).0.unwrap();
            &&& v.session_key == input.subrange(0, 32)
            &&& v.expected_mac == input.subrange(32, 64)
            &&& ke2_state_take_spec(input).1 == input.subrange(64, input.len() as int)
        },
{
    if input.len() >= 32 {
        let r1 = input.subrange(32, input.len() as int);
        if r1.len() >= 32 {
            assert(r1.subrange(0, 32) =~= input.subrange(32, 64));
            assert(r1.subrange(32, r1.len() as int) =~= input.subrange(64, input.len() as int));
        }
    }
}

/// The bytes of a second message: the nonce in bytes 0 to 32, the server's
/// ephemeral public key in bytes 32 to 65, the MAC in bytes 65 to 97.
pub proof fn lemma_ke2_message_layout(v: Ke2MessageView)
    requires
        v.server_nonce.len() == NONCE_LEN,
        v.server_e_pk.len() == PK_LEN,
        hash_len(v.mac),
    ensures
        ke2_message_bytes(v).len() == 97,
        ke2_message_bytes(v).subrange(0, 32) == v.server_nonce,
        ke2_message_bytes(v).subrange(32, 65) == v.server_e_pk,
        ke2_message_bytes(v).subrange(65, 97) == v.mac,
{
    assert(ke2_message_bytes(v).subrange(0, 32) =~= v.server_nonce);
    assert(ke2_message_bytes(v).subrange(32, 65) =~= v.server_e_pk);
    assert(ke2_message_bytes(v).subrange(65, 97) =~= v.mac);
}

/// Reading a second message: it succeeds exactly where there are at least 97
/// bytes and bytes 32 to 65 encode a public key; the nonce is the first 32
/// bytes, the key the next 33, the MAC the next 32, and what follows is left.
pub proof fn lemma_ke2_message_take_layout(input: Seq<u8>)
    ensures
        ke2_message_take_spec(input).0 is Some <==> (input.len() >= 97 && is_valid_pk(input.subrange(32, 65))),
        ke2_message_take_spec(input).0 is Some ==> {
            let v = ke2_message_take_spec(input).0.unwrap();
            &&& v.server_nonce == input.subrange(0, 32)
            &&& v.server_e_pk == input.subrange(32, 65)
            &&& v.mac == input.subrange(65, 97)
            &&& ke2_message_take_spec(input).1 == input.subrange(97, input.len() as int)
        },
{
    if input.len() >= 32 {
        let r1 = input.subrange(32, input.len() as int);
        if r1.len() >= 33 {
            assert(r1.subrange(0, 33) =~= input.subrange(32, 65));
            let r2 = r1.subrange(33, r1.len() as int);
            assert(r2 =~= input.subrange(65, input.len() as int));
            if r2.len() >= 32 {
                assert(r2.subrange(0, 32) =~= input.subrange(65, 97));
                assert(r2.subrange(32, r2.len() as int) =~= input.subrange(97, input.len() as int));
            }
        }
    }
}

/// The server's last step accepts exactly the client's MAC that it expects,
/// and then gives the session key it kept.
pub proof fn lemma_tripledh_finish_ke(state: Ke2StateView, ke3_mac: Seq<u8>)
    ensures
        finish_ke_spec(state, ke3_mac) is Some <==> state.expected_mac == ke3_mac,
        finish_ke_spec(state, ke3_mac) is Some ==> finish_ke_spec(state, ke3_mac) == Some(state.session_key),
{
}

} // verus!
