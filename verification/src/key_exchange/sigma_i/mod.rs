//! The SIGMA-I key exchange of the login step.
//!
//! The server answers the client's first message with its nonce, its
//! ephemeral public key, a signature over the transcript and a MAC over its
//! identity; the client checks both and answers with its own signature and
//! MAC; the server checks those. The session key comes from one
//! Diffie-Hellman secret between the ephemeral keys.
pub mod ecdsa;
pub mod message;
pub mod shared;

use vstd::prelude::*;
use crate::errors::{InternalError, ProtocolError};
use crate::hash::{ct_eq, hmac_sha256, hmac_spec, sha256, sha256_spec, HASH_LEN};
use crate::key_exchange::group::elliptic_curve::{dh_spec, is_valid_pk, public_key_spec, take_pk_spec, NistP256};
use crate::key_exchange::group::PK_LEN;
use crate::key_exchange::shared::{
    derive_keys, derive_keys_spec, generate_ke1, DerivedKeys, KeySchedule, generate_nonce, identifier_spec, ke1_bytes,
    preamble_spec, transcript, GenerateKe1Result, Identifiers, Ke1Message, Ke1MessageView, Ke1State,
    SerializedContext, SerializedIdentifier, SerializedIdentifiers, NONCE_LEN,
};
use crate::keypair::{pk_bytes_ok, sk_bytes_ok, KeyPair, PrivateKey, PublicKey};
use crate::random::random_bytes;
use crate::serialization::{
    append_bytes, append_len_prefixed, concat_bytes, copy_bytes, len_prefixed, take_array, take_spec,
};
use self::ecdsa::{
    ecdsa_sign_spec, ecdsa_verify_spec, is_valid_signature, sig_bytes_ok, take_signature_spec, Ecdsa, Signature, AD_LEN,
    SIG_LEN,
};
use self::message::{
    signed_message_spec, CachedMessage, CachedMessageView, Message, MessageBuilder, Role,
};
use self::shared::PreHash;

verus! {

/// The SIGMA-I key exchange over P-256, with ECDSA signatures and SHA-256.
pub struct SigmaI;

//////////////////////////
// Views
//////////////////////////

/// What the server's builder for the second message holds.
pub struct Ke2BuilderView {
    pub server_nonce: Seq<u8>,
    pub client_s_pk: Seq<u8>,
    pub server_e_pk: Seq<u8>,
    pub expected_mac: Seq<u8>,
    pub session_key: Seq<u8>,
    pub context: Seq<u8>,
    pub client_id: Seq<u8>,
    pub server_id: Seq<u8>,
    pub cache: CachedMessageView,
}

impl Ke2BuilderView {
    /// The message the server signs.
    pub open spec fn sign_message(self) -> Seq<u8> {
        signed_message_spec(Role::Server, self.context, self.server_id, self.cache)
    }

    /// The client's message, which the server will verify.
    pub open spec fn verify_message(self) -> Seq<u8> {
        signed_message_spec(Role::Client, self.context, self.client_id, self.cache)
    }
}

/// What the server keeps after the second message.
pub struct Ke2StateView {
    pub client_s_pk: Seq<u8>,
    pub session_key: Seq<u8>,
    pub verify_state: Seq<u8>,
    pub expected_mac: Seq<u8>,
}

/// What the second message holds.
pub struct Ke2MessageView {
    pub server_nonce: Seq<u8>,
    pub server_e_pk: Seq<u8>,
    pub signature: Seq<u8>,
    pub mac: Seq<u8>,
}

/// What the third message holds.
pub struct Ke3MessageView {
    pub signature: Seq<u8>,
    pub mac: Seq<u8>,
}

//////////////////////////
// Types
//////////////////////////

/// Builder for the second key exchange message.
#[derive(Debug, PartialEq, Eq)]
pub struct Ke2Builder {
    transcript: Message,
    server_nonce: Vec<u8>,
    client_s_pk: PublicKey,
    server_e_pk: PublicKey,
    expected_mac: Vec<u8>,
    session_key: Vec<u8>,
}

/// The server state produced after the second key exchange message.
#[derive(Debug, PartialEq, Eq)]
pub struct Ke2State {
    client_s_pk: PublicKey,
    session_key: Vec<u8>,
    verify_state: PreHash,
    expected_mac: Vec<u8>,
}

/// The second key exchange message.
#[derive(Debug, PartialEq, Eq)]
pub struct Ke2Message {
    server_nonce: Vec<u8>,
    server_e_pk: PublicKey,
    signature: Signature,
    mac: Vec<u8>,
}

/// The third key exchange message.
#[derive(Debug, PartialEq, Eq)]
pub struct Ke3Message {
    signature: Signature,
    mac: Vec<u8>,
}

/// The outcome of the server's second step: its state and the second message.
pub struct GenerateKe2Result {
    pub state: Ke2State,
    pub message: Ke2Message,
}

/// The outcome of the client's last step: the session key and the third
/// message.
pub struct GenerateKe3Result {
    pub session_key: Vec<u8>,
    pub message: Ke3Message,
}

impl View for Ke2Builder {
    type V = Ke2BuilderView;

    closed spec fn view(&self) -> Ke2BuilderView {
        Ke2BuilderView {
            server_nonce: self.server_nonce@,
            client_s_pk: self.client_s_pk@,
            server_e_pk: self.server_e_pk@,
            expected_mac: self.expected_mac@,
            session_key: self.session_key@,
            context: self.transcript.context@,
            client_id: self.transcript.identifiers.client_spec(),
            server_id: self.transcript.identifiers.server_spec(),
            cache: self.transcript.cache@,
        }
    }
}

impl View for Ke2State {
    type V = Ke2StateView;

    closed spec fn view(&self) -> Ke2StateView {
        Ke2StateView {
            client_s_pk: self.client_s_pk@,
            session_key: self.session_key@,
            verify_state: self.verify_state@,
            expected_mac: self.expected_mac@,
        }
    }
}

impl View for Ke2Message {
    type V = Ke2MessageView;

    closed spec fn view(&self) -> Ke2MessageView {
        Ke2MessageView {
            server_nonce: self.server_nonce@,
            server_e_pk: self.server_e_pk@,
            signature: self.signature@,
            mac: self.mac@,
        }
    }
}

impl View for Ke3Message {
    type V = Ke3MessageView;

    closed spec fn view(&self) -> Ke3MessageView {
        Ke3MessageView { signature: self.signature@, mac: self.mac@ }
    }
}

/// A MAC or key of the hash's length.
pub open spec fn hash_len(s: Seq<u8>) -> bool {
    s.len() == HASH_LEN
}

impl Ke2Builder {
    #[verifier::type_invariant]
    closed spec fn wf(self) -> bool {
        &&& self.transcript.role == Role::Server
        &&& self.server_nonce@.len() == NONCE_LEN
        &&& hash_len(self.transcript.cache.server_mac@)
        &&& hash_len(self.expected_mac@)
        &&& hash_len(self.session_key@)
    }
}

impl Ke2State {
    #[verifier::type_invariant]
    closed spec fn wf(self) -> bool {
        hash_len(self.session_key@) && hash_len(self.expected_mac@)
    }
}

impl Ke2Message {
    #[verifier::type_invariant]
    closed spec fn wf(self) -> bool {
        self.server_nonce@.len() == NONCE_LEN && hash_len(self.mac@)
    }
}

impl Ke3Message {
    #[verifier::type_invariant]
    closed spec fn wf(self) -> bool {
        hash_len(self.mac@)
    }
}

//////////////////////////
// The protocol, stated
//////////////////////////

/// The builder that the server makes from its ephemeral private key and nonce.
pub open spec fn ke2_builder_spec(
    server_e_sk: Seq<u8>,
    server_nonce: Seq<u8>,
    credential_request: Seq<u8>,
    ke1: Ke1MessageView,
    credential_response: Seq<u8>,
    client_s_pk: Seq<u8>,
    client_id: Seq<u8>,
    server_id: Seq<u8>,
    context: Seq<u8>,
) -> Ke2BuilderView {
    let server_e_pk = public_key_spec(server_e_sk);
    let preamble = preamble_spec(
        context,
        client_id,
        credential_request,
        ke1_bytes(ke1),
        server_id,
        credential_response,
        server_nonce,
        server_e_pk,
    );
    let keys = derive_keys_spec(dh_spec(server_e_sk, ke1.client_e_pk), sha256_spec(preamble));
    let server_mac = hmac_spec(keys.km2, len_prefixed(server_id));
    let cache = CachedMessageView {
        credential_request,
        ke1: ke1_bytes(ke1),
        credential_response,
        server_nonce,
        server_e_pk,
        server_mac,
    };
    Ke2BuilderView {
        server_nonce,
        client_s_pk,
        server_e_pk,
        expected_mac: hmac_spec(keys.km3, len_prefixed(client_id)),
        session_key: keys.session_key,
        context,
        client_id,
        server_id,
        cache,
    }
}

/// The server's state and second message, from its builder, its signature
/// and the pre-hash of the message it will verify.
pub open spec fn build_ke2_spec(b: Ke2BuilderView, signature: Seq<u8>, verify_state: Seq<u8>) -> (
    Ke2StateView,
    Ke2MessageView,
) {
    (
        Ke2StateView {
            client_s_pk: b.client_s_pk,
            session_key: b.session_key,
            verify_state,
            expected_mac: b.expected_mac,
        },
        Ke2MessageView {
            server_nonce: b.server_nonce,
            server_e_pk: b.server_e_pk,
            signature,
            mac: b.cache.server_mac,
        },
    )
}

/// The transcript preamble as the client sees it after the second message.
pub open spec fn ke3_preamble_spec(
    credential_request: Seq<u8>,
    ke1: Ke1MessageView,
    credential_response: Seq<u8>,
    ke2: Ke2MessageView,
    client_id: Seq<u8>,
    server_id: Seq<u8>,
    context: Seq<u8>,
) -> Seq<u8> {
    preamble_spec(
        context,
        client_id,
        credential_request,
        ke1_bytes(ke1),
        server_id,
        credential_response,
        ke2.server_nonce,
        ke2.server_e_pk,
    )
}

/// The keys the client derives from the ephemeral shared secret and the
/// transcript.
pub open spec fn ke3_keys_spec(
    credential_request: Seq<u8>,
    ke1: Ke1MessageView,
    credential_response: Seq<u8>,
    client_e_sk: Seq<u8>,
    ke2: Ke2MessageView,
    client_id: Seq<u8>,
    server_id: Seq<u8>,
    context: Seq<u8>,
) -> KeySchedule {
    derive_keys_spec(
        dh_spec(client_e_sk, ke2.server_e_pk),
        sha256_spec(ke3_preamble_spec(credential_request, ke1, credential_response, ke2, client_id, server_id, context)),
    )
}

/// The server's MAC as the client computes it: the server's identity (with
/// its length) under the client's `km2`.
pub open spec fn ke3_server_mac_spec(
    credential_request: Seq<u8>,
    ke1: Ke1MessageView,
    credential_response: Seq<u8>,
    client_e_sk: Seq<u8>,
    ke2: Ke2MessageView,
    client_id: Seq<u8>,
    server_id: Seq<u8>,
    context: Seq<u8>,
) -> Seq<u8> {
    hmac_spec(
        ke3_keys_spec(credential_request, ke1, credential_response, client_e_sk, ke2, client_id, server_id, context).km2,
        len_prefixed(server_id),
    )
}

/// The client's session key and third message, signed with the additional
/// randomness `ad`; or the error where the server's MAC does not check out,
/// the client's signing fails, or the server's signature does not verify.
pub open spec fn generate_ke3_spec(
    ad: Seq<u8>,
    credential_request: Seq<u8>,
    ke1: Ke1MessageView,
    credential_response: Seq<u8>,
    client_e_sk: Seq<u8>,
    ke2: Ke2MessageView,
    server_s_pk: Seq<u8>,
    client_s_sk: Seq<u8>,
    client_id: Seq<u8>,
    server_id: Seq<u8>,
    context: Seq<u8>,
) -> Result<(Seq<u8>, Ke3MessageView), ProtocolError> {
    let keys = ke3_keys_spec(credential_request, ke1, credential_response, client_e_sk, ke2, client_id, server_id, context);
    let server_mac = ke3_server_mac_spec(
        credential_request,
        ke1,
        credential_response,
        client_e_sk,
        ke2,
        client_id,
        server_id,
        context,
    );
    if server_mac != ke2.mac {
        Err(ProtocolError::InvalidLoginError)
    } else {
        let cache = CachedMessageView {
            credential_request,
            ke1: ke1_bytes(ke1),
            credential_response,
            server_nonce: ke2.server_nonce,
            server_e_pk: ke2.server_e_pk,
            server_mac,
        };
        let sign_hash = sha256_spec(signed_message_spec(Role::Client, context, client_id, cache));
        let verify_hash = sha256_spec(signed_message_spec(Role::Server, context, server_id, cache));
        match ecdsa_sign_spec(client_s_sk, sign_hash, ad) {
            None => Err(ProtocolError::LibraryError(InternalError::SignatureError)),
            Some(signature) => if !ecdsa_verify_spec(server_s_pk, verify_hash, ke2.signature) {
                Err(ProtocolError::InvalidLoginError)
            } else {
                Ok((keys.session_key, Ke3MessageView { signature, mac: hmac_spec(keys.km3, len_prefixed(client_id)) }))
            },
        }
    }
}

/// The server's session key where the client's identity can be serialized,
/// its signature verifies and its MAC is the one expected.
pub open spec fn finish_ke_spec(state: Ke2StateView, ke3: Ke3MessageView, client_id: Seq<u8>) -> Result<
    Seq<u8>,
    ProtocolError,
> {
    if client_id.len() >= 65536 {
        Err(ProtocolError::SerializationError)
    } else if !ecdsa_verify_spec(state.client_s_pk, state.verify_state, ke3.signature) {
        Err(ProtocolError::InvalidLoginError)
    } else if state.expected_mac != ke3.mac {
        Err(ProtocolError::InvalidLoginError)
    } else {
        Ok(state.session_key)
    }
}

//////////////////////////
// The protocol
//////////////////////////

/// An identity preceded by its length, as it enters a MAC.
fn prefixed(id: &[u8]) -> (r: Vec<u8>)
    requires
        id@.len() < 65536,
    ensures
        r@ == len_prefixed(id@),
{
    let mut r = Vec::new();
    append_len_prefixed(&mut r, id);
    assert(r@ =~= len_prefixed(id@));
    r
}

impl SigmaI {
    /// The client's first step: a fresh ephemeral key pair and nonce.
    pub fn generate_ke1(rng: &mut rand::rngs::StdRng) -> (r: Result<GenerateKe1Result, ProtocolError>)
        ensures
            r is Ok,
            r.unwrap().message@ == (Ke1MessageView {
                client_nonce: r.unwrap().state.client_nonce_spec(),
                client_e_pk: public_key_spec(r.unwrap().state.client_e_sk_spec()),
            }),
    {
        generate_ke1(rng)
    }

    /// The server's builder from a given ephemeral private key and nonce: it
    /// derives the keys from the ephemeral shared secret and the transcript,
    /// computes both MACs and records the messages to sign and to verify.
    pub fn ke2_builder_with(
        server_e_sk: PrivateKey,
        server_nonce: Vec<u8>,
        credential_request: &[u8],
        ke1_message: Ke1Message,
        credential_response: &[u8],
        client_s_pk: PublicKey,
        identifiers: SerializedIdentifiers,
        context: SerializedContext,
    ) -> (r: Result<Ke2Builder, ProtocolError>)
        requires
            server_nonce@.len() == NONCE_LEN,
        ensures
            r is Ok,
            r.unwrap()@ == ke2_builder_spec(
                server_e_sk@,
                server_nonce@,
                credential_request@,
                ke1_message@,
                credential_response@,
                client_s_pk@,
                identifiers.client_spec(),
                identifiers.server_spec(),
                context@,
            ),
            ({
                let client_id = identifiers.client_spec();
                let server_id = identifiers.server_spec();
                let preamble = preamble_spec(
                    context@,
                    client_id,
                    credential_request@,
                    ke1_message@.client_nonce + ke1_message@.client_e_pk,
                    server_id,
                    credential_response@,
                    server_nonce@,
                    public_key_spec(server_e_sk@),
                );
                let keys = derive_keys_spec(dh_spec(server_e_sk@, ke1_message@.client_e_pk), sha256_spec(preamble));
                &&& r.unwrap()@.session_key == keys.session_key
                &&& r.unwrap()@.cache.server_mac == hmac_spec(
                    keys.km2,
                    seq![(server_id.len() / 256) as u8, (server_id.len() % 256) as u8] + server_id,
                )
                &&& r.unwrap()@.expected_mac == hmac_spec(
                    keys.km3,
                    seq![(client_id.len() / 256) as u8, (client_id.len() % 256) as u8] + client_id,
                )
            }),
    {
        let server_e = KeyPair::from_private_key(server_e_sk);
        let server_e_pk = server_e.public().serialize();
        let preamble = transcript(
            &context,
            &identifiers,
            credential_request,
            &ke1_message,
            credential_response,
            server_nonce.as_slice(),
            server_e_pk.as_slice(),
        );
        let shared_secret = server_e.private().ke_diffie_hellman(ke1_message.client_e_pk());
        let transcript_digest = sha256(preamble.as_slice());
        let derived_keys = derive_keys(shared_secret.as_slice(), transcript_digest.as_slice())?;
        let server_mac = match hmac_sha256(derived_keys.km2.as_slice(), prefixed(identifiers.server()).as_slice()) {
            Some(t) => t,
            None => return Err(ProtocolError::LibraryError(InternalError::HmacError)),
        };
        let client_mac = match hmac_sha256(derived_keys.km3.as_slice(), prefixed(identifiers.client()).as_slice()) {
            Some(t) => t,
            None => return Err(ProtocolError::LibraryError(InternalError::HmacError)),
        };
        let message = Message {
            role: Role::Server,
            context,
            identifiers,
            cache: CachedMessage {
                credential_request: copy_bytes(credential_request),
                ke1_message: ke1_message.serialize(),
                credential_response: copy_bytes(credential_response),
                server_nonce: copy_bytes(server_nonce.as_slice()),
                server_e_pk,
                server_mac,
            },
        };
        Ok(Ke2Builder {
            transcript: message,
            server_nonce,
            client_s_pk,
            server_e_pk: server_e.public().duplicate(),
            expected_mac: client_mac,
            session_key: derived_keys.session_key,
        })
    }

    /// The server's builder for the second message, with a fresh ephemeral
    /// key pair and nonce.
    pub fn ke2_builder(
        rng: &mut rand::rngs::StdRng,
        credential_request: &[u8],
        ke1_message: Ke1Message,
        credential_response: &[u8],
        client_s_pk: PublicKey,
        identifiers: SerializedIdentifiers,
        context: SerializedContext,
    ) -> (r: Result<Ke2Builder, ProtocolError>)
        ensures
            r is Ok,
            exists|server_e_sk: Seq<u8>, server_nonce: Seq<u8>|
                sk_bytes_ok(server_e_sk) && server_nonce.len() == NONCE_LEN && r.unwrap()@ == ke2_builder_spec(
                    server_e_sk,
                    server_nonce,
                    credential_request@,
                    ke1_message@,
                    credential_response@,
                    client_s_pk@,
                    identifiers.client_spec(),
                    identifiers.server_spec(),
                    context@,
                ),
    {
        let server_e_sk = NistP256::random_sk(rng);
        let server_nonce = generate_nonce(rng);
        SigmaI::ke2_builder_with(
            server_e_sk,
            server_nonce,
            credential_request,
            ke1_message,
            credential_response,
            client_s_pk,
            identifiers,
            context,
        )
    }

    /// The messages that the server signs and verifies.
    pub fn ke2_builder_data(builder: &Ke2Builder) -> (r: &Message)
        ensures
            r.role == Role::Server,
            r.context@ == builder@.context,
            r.identifiers.client_spec() == builder@.client_id,
            r.identifiers.server_spec() == builder@.server_id,
            r.cache@ == builder@.cache,
            r.sign_message_spec() == builder@.sign_message(),
            r.verify_message_spec() == builder@.verify_message(),
    {
        proof { use_type_invariant(builder); }
        &builder.transcript
    }

    /// The server's signature over its message, with the pre-hash of the
    /// client's message that it will verify.
    ///
    /// Fails with [`InternalError::SignatureError`] where the signing
    /// primitive fails.
    pub fn generate_ke2_input(builder: &Ke2Builder, rng: &mut rand::rngs::StdRng, server_s_sk: &PrivateKey) -> (r:
        Result<(Signature, PreHash), ProtocolError>)
        ensures
            exists|ad: Seq<u8>|
                {
                    let signed = #[trigger] ecdsa_sign_spec(server_s_sk@, sha256_spec(builder@.sign_message()), ad);
                    &&& ad.len() == AD_LEN
                    &&& r is Ok <==> signed is Some
                    &&& r is Ok ==> r.unwrap().0@ == signed.unwrap()
                },
            r is Ok ==> r.unwrap().1@ == sha256_spec(builder@.verify_message()),
            r is Err ==> r == Err::<(Signature, PreHash), ProtocolError>(
                ProtocolError::LibraryError(InternalError::SignatureError),
            ),
    {
        proof { use_type_invariant(builder); }
        assert(builder.transcript.sign_message_spec() == builder@.sign_message());
        assert(builder.transcript.verify_message_spec() == builder@.verify_message());
        Ecdsa::sign(server_s_sk, rng, &builder.transcript)
    }

    /// The server's second step: its state, keeping what it needs to check
    /// the client's answer, and the second message with its signature and MAC.
    pub fn build_ke2(builder: Ke2Builder, input: (Signature, PreHash)) -> (r: Result<GenerateKe2Result, ProtocolError>)
        ensures
            r is Ok,
            r.unwrap().state@ == build_ke2_spec(builder@, input.0@, input.1@).0,
            r.unwrap().message@ == build_ke2_spec(builder@, input.0@, input.1@).1,
    {
        proof { use_type_invariant(&builder); }
        let (signature, verify_state) = input;
        let mac = copy_bytes(builder.transcript.cache.server_mac.as_slice());
        Ok(GenerateKe2Result {
            state: Ke2State {
                client_s_pk: builder.client_s_pk,
                session_key: builder.session_key,
                verify_state,
                expected_mac: builder.expected_mac,
            },
            message: Ke2Message { server_nonce: builder.server_nonce, server_e_pk: builder.server_e_pk, signature, mac },
        })
    }

    /// The client's keys from the second message, with the server's MAC,
    /// where that MAC checks out.
    fn check_server_mac(
        credential_request: &[u8],
        ke1_message: &Ke1Message,
        credential_response: &[u8],
        ke1_state: &Ke1State,
        ke2_message: &Ke2Message,
        identifiers: &SerializedIdentifiers,
        context: &SerializedContext,
    ) -> (r: Result<(DerivedKeys, Vec<u8>), ProtocolError>)
        ensures
            ({
                let server_mac = ke3_server_mac_spec(
                    credential_request@,
                    ke1_message@,
                    credential_response@,
                    ke1_state.client_e_sk_spec(),
                    ke2_message@,
                    identifiers.client_spec(),
                    identifiers.server_spec(),
                    context@,
                );
                &&& r is Ok <==> server_mac == ke2_message@.mac
                &&& r is Ok ==> r.unwrap().0@ == ke3_keys_spec(
                    credential_request@,
                    ke1_message@,
                    credential_response@,
                    ke1_state.client_e_sk_spec(),
                    ke2_message@,
                    identifiers.client_spec(),
                    identifiers.server_spec(),
                    context@,
                )
                &&& r is Ok ==> r.unwrap().1@ == server_mac
                &&& r is Err ==> r == Err::<(DerivedKeys, Vec<u8>), ProtocolError>(ProtocolError::InvalidLoginError)
            }),
    {
        let server_e_pk = ke2_message.server_e_pk.serialize();
        let preamble = transcript(
            context,
            identifiers,
            credential_request,
            ke1_message,
            credential_response,
            ke2_message.server_nonce.as_slice(),
            server_e_pk.as_slice(),
        );
        let shared_secret = ke1_state.client_e_sk().ke_diffie_hellman(&ke2_message.server_e_pk);
        let transcript_digest = sha256(preamble.as_slice());
        let derived_keys = match derive_keys(shared_secret.as_slice(), transcript_digest.as_slice()) {
            Ok(k) => k,
            Err(e) => return Err(e),
        };
        let server_mac = match hmac_sha256(derived_keys.km2.as_slice(), prefixed(identifiers.server()).as_slice()) {
            Some(t) => t,
            None => return Err(ProtocolError::LibraryError(InternalError::HmacError)),
        };
        if !ct_eq(server_mac.as_slice(), ke2_message.mac.as_slice()) {
            return Err(ProtocolError::InvalidLoginError);
        }
        Ok((derived_keys, server_mac))
    }

    /// The client's answer once the server's MAC has checked out: signs its
    /// own message with `ad`, checks the server's signature and answers with
    /// its signature and MAC.
    fn answer(
        ad: &[u8],
        credential_request: &[u8],
        ke1_message: &Ke1Message,
        credential_response: &[u8],
        ke1_state: &Ke1State,
        ke2_message: &Ke2Message,
        server_s_pk: &PublicKey,
        client_s_sk: &PrivateKey,
        identifiers: &SerializedIdentifiers,
        context: &SerializedContext,
        keys: DerivedKeys,
        server_mac: Vec<u8>,
    ) -> (r: Result<GenerateKe3Result, ProtocolError>)
        requires
            keys@ == ke3_keys_spec(
                credential_request@,
                ke1_message@,
                credential_response@,
                ke1_state.client_e_sk_spec(),
                ke2_message@,
                identifiers.client_spec(),
                identifiers.server_spec(),
                context@,
            ),
            server_mac@ == ke3_server_mac_spec(
                credential_request@,
                ke1_message@,
                credential_response@,
                ke1_state.client_e_sk_spec(),
                ke2_message@,
                identifiers.client_spec(),
                identifiers.server_spec(),
                context@,
            ),
            server_mac@ == ke2_message@.mac,
        ensures
            ({
                let outcome = generate_ke3_spec(
                    ad@,
                    credential_request@,
                    ke1_message@,
                    credential_response@,
                    ke1_state.client_e_sk_spec(),
                    ke2_message@,
                    server_s_pk@,
                    client_s_sk@,
                    identifiers.client_spec(),
                    identifiers.server_spec(),
                    context@,
                );
                &&& r is Ok <==> outcome is Ok
                &&& r is Ok ==> r.unwrap().session_key@ == outcome.unwrap().0
                &&& r is Ok ==> r.unwrap().message@ == outcome.unwrap().1
                &&& r is Err ==> r->Err_0 == outcome->Err_0
            }),
    {
        proof { use_type_invariant(ke2_message); }
        let client_mac = match hmac_sha256(keys.km3.as_slice(), prefixed(identifiers.client()).as_slice()) {
            Some(t) => t,
            None => return Err(ProtocolError::LibraryError(InternalError::HmacError)),
        };
        let message = Message {
            role: Role::Client,
            context: context.duplicate(),
            identifiers: identifiers.duplicate(),
            cache: CachedMessage {
                credential_request: copy_bytes(credential_request),
                ke1_message: ke1_message.serialize(),
                credential_response: copy_bytes(credential_response),
                server_nonce: copy_bytes(ke2_message.server_nonce.as_slice()),
                server_e_pk: ke2_message.server_e_pk.serialize(),
                server_mac,
            },
        };
        let (signature, state) = Ecdsa::sign_with(client_s_sk, ad, &message)?;
        let server_id = SerializedIdentifier::from_identifier(Some(identifiers.server()), server_s_pk)?;
        Ecdsa::verify(
            server_s_pk,
            MessageBuilder { role: Role::Client, context, identifier: server_id },
            state,
            &ke2_message.signature,
        )?;
        Ok(GenerateKe3Result { session_key: keys.session_key, message: Ke3Message { signature, mac: client_mac } })
    }

    /// The client's last step with the given additional randomness for its
    /// signature: checks the server's MAC, signs its own message, checks the
    /// server's signature and answers with its signature and MAC.
    ///
    /// Fails with [`ProtocolError::InvalidLoginError`] where the server's MAC
    /// or signature does not check out, and with
    /// [`InternalError::SignatureError`] where signing fails.
    pub fn generate_ke3_with(
        ad: &[u8],
        credential_request: &[u8],
        ke1_message: Ke1Message,
        credential_response: &[u8],
        ke1_state: &Ke1State,
        ke2_message: Ke2Message,
        server_s_pk: PublicKey,
        client_s_sk: PrivateKey,
        identifiers: &SerializedIdentifiers,
        context: &SerializedContext,
    ) -> (r: Result<GenerateKe3Result, ProtocolError>)
        ensures
            ({
                let outcome = generate_ke3_spec(
                    ad@,
                    credential_request@,
                    ke1_message@,
                    credential_response@,
                    ke1_state.client_e_sk_spec(),
                    ke2_message@,
                    server_s_pk@,
                    client_s_sk@,
                    identifiers.client_spec(),
                    identifiers.server_spec(),
                    context@,
                );
                &&& r is Ok <==> outcome is Ok
                &&& r is Ok ==> r.unwrap().session_key@ == outcome.unwrap().0
                &&& r is Ok ==> r.unwrap().message@ == outcome.unwrap().1
                &&& r is Err ==> r->Err_0 == outcome->Err_0
            }),
            ({
                let client_id = identifiers.client_spec();
                let server_id = identifiers.server_spec();
                let preamble = preamble_spec(
                    context@,
                    client_id,
                    credential_request@,
                    ke1_message@.client_nonce + ke1_message@.client_e_pk,
                    server_id,
                    credential_response@,
                    ke2_message@.server_nonce,
                    ke2_message@.server_e_pk,
                );
                let keys = derive_keys_spec(
                    dh_spec(ke1_state.client_e_sk_spec(), ke2_message@.server_e_pk),
                    sha256_spec(preamble),
                );
                let server_mac = hmac_spec(
                    keys.km2,
                    seq![(server_id.len() / 256) as u8, (server_id.len() % 256) as u8] + server_id,
                );
                &&& ke2_message@.mac != server_mac ==> r == Err::<GenerateKe3Result, ProtocolError>(
                    ProtocolError::InvalidLoginError,
                )
                &&& r is Ok ==> r.unwrap().session_key@ == keys.session_key
                &&& r is Ok ==> r.unwrap().message@.mac == hmac_spec(
                    keys.km3,
                    seq![(client_id.len() / 256) as u8, (client_id.len() % 256) as u8] + client_id,
                )
            }),
    {
        let (keys, server_mac) = SigmaI::check_server_mac(
            credential_request,
            &ke1_message,
            credential_response,
            ke1_state,
            &ke2_message,
            identifiers,
            context,
        )?;
        SigmaI::answer(
            ad,
            credential_request,
            &ke1_message,
            credential_response,
            ke1_state,
            &ke2_message,
            &server_s_pk,
            &client_s_sk,
            identifiers,
            context,
            keys,
            server_mac,
        )
    }

    /// The client's last step: checks the server's MAC, then signs its own
    /// message with fresh randomness, checks the server's signature and
    /// answers with its signature and MAC. Where the server's MAC does not
    /// check out, nothing is drawn from `rng`.
    ///
    /// Fails with [`ProtocolError::InvalidLoginError`] where the server's MAC
    /// or signature does not check out, and with
    /// [`InternalError::SignatureError`] where signing fails.
    pub fn generate_ke3(
        rng: &mut rand::rngs::StdRng,
        credential_request: &[u8],
        ke1_message: Ke1Message,
        credential_response: &[u8],
        ke1_state: &Ke1State,
        ke2_message: Ke2Message,
        server_s_pk: PublicKey,
        client_s_sk: PrivateKey,
        identifiers: &SerializedIdentifiers,
        context: &SerializedContext,
    ) -> (r: Result<GenerateKe3Result, ProtocolError>)
        ensures
            exists|ad: Seq<u8>|
                {
                    let outcome = #[trigger] generate_ke3_spec(
                        ad,
                        credential_request@,
                        ke1_message@,
                        credential_response@,
                        ke1_state.client_e_sk_spec(),
                        ke2_message@,
                        server_s_pk@,
                        client_s_sk@,
                        identifiers.client_spec(),
                        identifiers.server_spec(),
                        context@,
                    );
                    &&& ad.len() == AD_LEN
                    &&& r is Ok <==> outcome is Ok
                    &&& r is Ok ==> r.unwrap().session_key@ == outcome.unwrap().0
                    &&& r is Ok ==> r.unwrap().message@ == outcome.unwrap().1
                    &&& r is Err ==> r->Err_0 == outcome->Err_0
                },
            ke3_server_mac_spec(
                credential_request@,
                ke1_message@,
                credential_response@,
                ke1_state.client_e_sk_spec(),
                ke2_message@,
                identifiers.client_spec(),
                identifiers.server_spec(),
                context@,
            ) != ke2_message@.mac ==> *final(rng) == *old(rng),
            ({
                let client_id = identifiers.client_spec();
                let server_id = identifiers.server_spec();
                let preamble = preamble_spec(
                    context@,
                    client_id,
                    credential_request@,
                    ke1_message@.client_nonce + ke1_message@.client_e_pk,
                    server_id,
                    credential_response@,
                    ke2_message@.server_nonce,
                    ke2_message@.server_e_pk,
                );
                let keys = derive_keys_spec(
                    dh_spec(ke1_state.client_e_sk_spec(), ke2_message@.server_e_pk),
                    sha256_spec(preamble),
                );
                let server_mac = hmac_spec(
                    keys.km2,
                    seq![(server_id.len() / 256) as u8, (server_id.len() % 256) as u8] + server_id,
                );
                &&& ke2_message@.mac != server_mac ==> r == Err::<GenerateKe3Result, ProtocolError>(
                    ProtocolError::InvalidLoginError,
                )
                &&& r is Ok ==> r.unwrap().session_key@ == keys.session_key
                &&& r is Ok ==> r.unwrap().message@.mac == hmac_spec(
                    keys.km3,
                    seq![(client_id.len() / 256) as u8, (client_id.len() % 256) as u8] + client_id,
                )
            }),
    {
        let (keys, server_mac) = match SigmaI::check_server_mac(
            credential_request,
            &ke1_message,
            credential_response,
            ke1_state,
            &ke2_message,
            identifiers,
            context,
        ) {
            Ok(v) => v,
            Err(e) => {
                proof {
                    let no_ad = Seq::new(AD_LEN as nat, |i: int| 0u8);
                    assert(generate_ke3_spec(
                        no_ad,
                        credential_request@,
                        ke1_message@,
                        credential_response@,
                        ke1_state.client_e_sk_spec(),
                        ke2_message@,
                        server_s_pk@,
                        client_s_sk@,
                        identifiers.client_spec(),
                        identifiers.server_spec(),
                        context@,
                    ) is Err);
                }
                return Err(e);
            },
        };
        let ad = random_bytes(rng, AD_LEN);
        SigmaI::answer(
            ad.as_slice(),
            credential_request,
            &ke1_message,
            credential_response,
            ke1_state,
            &ke2_message,
            &server_s_pk,
            &client_s_sk,
            identifiers,
            context,
            keys,
            server_mac,
        )
    }

    /// The server's last step: checks the client's signature against the
    /// pre-hash it kept and the client's MAC against the one it expects, and
    /// gives the session key.
    ///
    /// Fails with [`ProtocolError::SerializationError`] where the client's
    /// identity (the one given, or else its public key) is longer than 65535
    /// bytes, and with [`ProtocolError::InvalidLoginError`] where the
    /// signature or the MAC does not check out.
    pub fn finish_ke(
        ke2_state: &Ke2State,
        ke3_message: Ke3Message,
        identifiers: Identifiers,
        context: &SerializedContext,
    ) -> (r: Result<Vec<u8>, ProtocolError>)
        ensures
            ({
                let outcome = finish_ke_spec(
                    ke2_state@,
                    ke3_message@,
                    identifier_spec(identifiers.client, ke2_state@.client_s_pk),
                );
                &&& r is Ok <==> outcome is Ok
                &&& r is Ok ==> r.unwrap()@ == outcome.unwrap()
                &&& r is Err ==> r->Err_0 == outcome->Err_0
            }),
    {
        let client_id = SerializedIdentifier::from_identifier(identifiers.client, &ke2_state.client_s_pk)?;
        Ecdsa::verify(
            &ke2_state.client_s_pk,
            MessageBuilder { role: Role::Server, context, identifier: client_id },
            ke2_state.verify_state.duplicate(),
            &ke3_message.signature,
        )?;
        if ct_eq(ke2_state.expected_mac.as_slice(), ke3_message.mac.as_slice()) {
            Ok(copy_bytes(ke2_state.session_key.as_slice()))
        } else {
            Err(ProtocolError::InvalidLoginError)
        }
    }
}

//////////////////////////
// Serialization
//////////////////////////

/// The bytes of the server state: the client's public key, the session key,
/// the pre-hash to verify and the expected MAC.
pub open spec fn ke2_state_bytes(v: Ke2StateView) -> Seq<u8> {
    v.client_s_pk + v.session_key + v.verify_state + v.expected_mac
}

/// What taking a server state from the front of `input` gives.
pub open spec fn ke2_state_take_spec(input: Seq<u8>) -> (Option<Ke2StateView>, Seq<u8>) {
    let (client_s_pk, rest) = take_pk_spec(input);
    match client_s_pk {
        None => (None, rest),
        Some(client_s_pk) => {
            let (session_key, rest) = take_spec(rest, HASH_LEN as nat);
            match session_key {
                None => (None, rest),
                Some(session_key) => {
                    let (verify_state, rest) = take_spec(rest, HASH_LEN as nat);
                    match verify_state {
                        None => (None, rest),
                        Some(verify_state) => {
                            let (expected_mac, rest) = take_spec(rest, HASH_LEN as nat);
                            match expected_mac {
                                None => (None, rest),
                                Some(expected_mac) => (
                                    Some(Ke2StateView { client_s_pk, session_key, verify_state, expected_mac }),
                                    rest,
                                ),
                            }
                        },
                    }
                },
            }
        },
    }
}

/// The bytes of the second message: nonce, public key, signature, MAC.
pub open spec fn ke2_message_bytes(v: Ke2MessageView) -> Seq<u8> {
    v.server_nonce + v.server_e_pk + v.signature + v.mac
}

/// What taking a second message from the front of `input` gives.
pub open spec fn ke2_message_take_spec(input: Seq<u8>) -> (Option<Ke2MessageView>, Seq<u8>) {
    let (server_nonce, rest) = take_spec(input, NONCE_LEN as nat);
    match server_nonce {
        None => (None, rest),
        Some(server_nonce) => {
            let (server_e_pk, rest) = take_pk_spec(rest);
            match server_e_pk {
                None => (None, rest),
                Some(server_e_pk) => {
                    let (signature, rest) = take_signature_spec(rest);
                    match signature {
                        None => (None, rest),
                        Some(signature) => {
                            let (mac, rest) = take_spec(rest, HASH_LEN as nat);
                            match mac {
                                None => (None, rest),
                                Some(mac) => (Some(Ke2MessageView { server_nonce, server_e_pk, signature, mac }), rest),
                            }
                        },
                    }
                },
            }
        },
    }
}

/// The bytes of the third message: signature, MAC.
pub open spec fn ke3_message_bytes(v: Ke3MessageView) -> Seq<u8> {
    v.signature + v.mac
}

/// What taking a third message from the front of `input` gives.
pub open spec fn ke3_message_take_spec(input: Seq<u8>) -> (Option<Ke3MessageView>, Seq<u8>) {
    let (signature, rest) = take_signature_spec(input);
    match signature {
        None => (None, rest),
        Some(signature) => {
            let (mac, rest) = take_spec(rest, HASH_LEN as nat);
            match mac {
                None => (None, rest),
                Some(mac) => (Some(Ke3MessageView { signature, mac }), rest),
            }
        },
    }
}

impl Ke2Builder {
    /// A builder from its parts: the server's messages, its nonce, the
    /// client's static public key, the server's ephemeral public key, the MAC
    /// expected from the client and the session key; `None` where the
    /// messages are not the server's or a nonce, MAC or key has the wrong
    /// length.
    pub fn from_parts(
        transcript: Message,
        server_nonce: Vec<u8>,
        client_s_pk: PublicKey,
        server_e_pk: PublicKey,
        expected_mac: Vec<u8>,
        session_key: Vec<u8>,
    ) -> (r: Option<Ke2Builder>)
        ensures
            r is Some <==> (transcript.role == Role::Server && server_nonce@.len() == NONCE_LEN
                && hash_len(transcript.cache.server_mac@) && hash_len(expected_mac@) && hash_len(session_key@)),
            r is Some ==> r.unwrap()@ == (Ke2BuilderView {
                server_nonce: server_nonce@,
                client_s_pk: client_s_pk@,
                server_e_pk: server_e_pk@,
                expected_mac: expected_mac@,
                session_key: session_key@,
                context: transcript.context@,
                client_id: transcript.identifiers.client_spec(),
                server_id: transcript.identifiers.server_spec(),
                cache: transcript.cache@,
            }),
    {
        let is_server = match transcript.role {
            Role::Server => true,
            Role::Client => false,
        };
        if is_server && server_nonce.len() == NONCE_LEN && transcript.cache.server_mac.len() == HASH_LEN
            && expected_mac.len() == HASH_LEN && session_key.len() == HASH_LEN {
            Some(Ke2Builder { transcript, server_nonce, client_s_pk, server_e_pk, expected_mac, session_key })
        } else {
            None
        }
    }

    /// The server's nonce.
    pub fn server_nonce(&self) -> (r: &[u8])
        ensures
            r@ == self@.server_nonce,
    {
        self.server_nonce.as_slice()
    }

    /// The client's static public key.
    pub fn client_s_pk(&self) -> (r: &PublicKey)
        ensures
            r@ == self@.client_s_pk,
    {
        &self.client_s_pk
    }

    /// The server's ephemeral public key.
    pub fn server_e_pk(&self) -> (r: &PublicKey)
        ensures
            r@ == self@.server_e_pk,
    {
        &self.server_e_pk
    }

    /// The MAC expected from the client.
    pub fn expected_mac(&self) -> (r: &[u8])
        ensures
            r@ == self@.expected_mac,
    {
        self.expected_mac.as_slice()
    }

    /// The session key.
    pub fn session_key(&self) -> (r: &[u8])
        ensures
            r@ == self@.session_key,
    {
        self.session_key.as_slice()
    }
}

impl Ke2State {
    /// A copy of this state.
    pub fn duplicate(&self) -> (r: Ke2State)
        ensures
            r@ == self@,
    {
        proof { use_type_invariant(self); }
        Ke2State {
            client_s_pk: self.client_s_pk.duplicate(),
            session_key: copy_bytes(self.session_key.as_slice()),
            verify_state: self.verify_state.duplicate(),
            expected_mac: copy_bytes(self.expected_mac.as_slice()),
        }
    }

    /// The bytes of this state.
    pub fn serialize(&self) -> (r: Vec<u8>)
        ensures
            r@ == ke2_state_bytes(self@),
            pk_bytes_ok(self@.client_s_pk),
            hash_len(self@.session_key),
            hash_len(self@.verify_state),
            hash_len(self@.expected_mac),
            r@.len() == PK_LEN + 3 * HASH_LEN,
            r@.subrange(0, 33) == self@.client_s_pk,
            r@.subrange(33, 65) == self@.session_key,
            r@.subrange(65, 97) == self@.verify_state,
            r@.subrange(97, 129) == self@.expected_mac,
            forall|rest: Seq<u8>| #[trigger] ke2_state_take_spec(r@ + rest) == (Some(self@), rest),
    {
        proof { use_type_invariant(self); }
        let mut r = concat_bytes(self.client_s_pk.as_bytes(), self.session_key.as_slice());
        append_bytes(&mut r, self.verify_state.as_bytes());
        append_bytes(&mut r, self.expected_mac.as_slice());
        proof {
            lemma_ke2_state_layout(self@);
            assert forall|rest: Seq<u8>| #[trigger] ke2_state_take_spec(r@ + rest) == (Some(self@), rest) by {
                lemma_ke2_state_roundtrip(self@, rest);
            }
        }
        r
    }

    /// Takes a server state from the front of `input`.
    ///
    /// Fails with [`ProtocolError::SerializationError`] where the input is too
    /// short or the public key does not decode.
    pub fn deserialize_take(input: &mut &[u8]) -> (r: Result<Ke2State, ProtocolError>)
        ensures
            final(input)@ == ke2_state_take_spec(old(input)@).1,
            r is Ok <==> ke2_state_take_spec(old(input)@).0 is Some,
            r is Ok ==> r.unwrap()@ == ke2_state_take_spec(old(input)@).0.unwrap(),
            r is Err ==> r == Err::<Ke2State, ProtocolError>(ProtocolError::SerializationError),
            r is Ok <==> (old(input)@.len() >= 129 && is_valid_pk(old(input)@.subrange(0, 33))),
            r is Ok ==> {
                &&& r.unwrap()@.client_s_pk == old(input)@.subrange(0, 33)
                &&& r.unwrap()@.session_key == old(input)@.subrange(33, 65)
                &&& r.unwrap()@.verify_state == old(input)@.subrange(65, 97)
                &&& r.unwrap()@.expected_mac == old(input)@.subrange(97, 129)
                &&& final(input)@ == old(input)@.subrange(129, old(input)@.len() as int)
            },
    {
        proof { lemma_ke2_state_take_layout(input@); }
        let client_s_pk = NistP256::deserialize_take_pk(input)?;
        let session_key = take_array(input, HASH_LEN)?;
        let verify_state = PreHash::deserialize_take(input)?;
        let expected_mac = take_array(input, HASH_LEN)?;
        Ok(Ke2State { client_s_pk, session_key, verify_state, expected_mac })
    }
}

impl Ke2Message {
    /// A copy of this message.
    pub fn duplicate(&self) -> (r: Ke2Message)
        ensures
            r@ == self@,
    {
        proof { use_type_invariant(self); }
        Ke2Message {
            server_nonce: copy_bytes(self.server_nonce.as_slice()),
            server_e_pk: self.server_e_pk.duplicate(),
            signature: self.signature.duplicate(),
            mac: copy_bytes(self.mac.as_slice()),
        }
    }

    /// The bytes of this message.
    pub fn serialize(&self) -> (r: Vec<u8>)
        ensures
            r@ == ke2_message_bytes(self@),
            self@.server_nonce.len() == NONCE_LEN,
            pk_bytes_ok(self@.server_e_pk),
            sig_bytes_ok(self@.signature),
            hash_len(self@.mac),
            r@.len() == NONCE_LEN + PK_LEN + SIG_LEN + HASH_LEN,
            r@.subrange(0, 32) == self@.server_nonce,
            r@.subrange(32, 65) == self@.server_e_pk,
            r@.subrange(65, 129) == self@.signature,
            r@.subrange(129, 161) == self@.mac,
            forall|rest: Seq<u8>| #[trigger] ke2_message_take_spec(r@ + rest) == (Some(self@), rest),
    {
        proof { use_type_invariant(self); }
        let mut r = concat_bytes(self.server_nonce.as_slice(), self.server_e_pk.as_bytes());
        append_bytes(&mut r, self.signature.as_bytes());
        append_bytes(&mut r, self.mac.as_slice());
        proof {
            lemma_ke2_message_layout(self@);
            assert forall|rest: Seq<u8>| #[trigger] ke2_message_take_spec(r@ + rest) == (Some(self@), rest) by {
                lemma_ke2_message_roundtrip(self@, rest);
            }
        }
        r
    }

    /// Takes a second message from the front of `input`.
    ///
    /// Fails with [`ProtocolError::SerializationError`] where the input is too
    /// short, or the public key or the signature does not decode.
    pub fn deserialize_take(input: &mut &[u8]) -> (r: Result<Ke2Message, ProtocolError>)
        ensures
            final(input)@ == ke2_message_take_spec(old(input)@).1,
            r is Ok <==> ke2_message_take_spec(old(input)@).0 is Some,
            r is Ok ==> r.unwrap()@ == ke2_message_take_spec(old(input)@).0.unwrap(),
            r is Err ==> r == Err::<Ke2Message, ProtocolError>(ProtocolError::SerializationError),
            r is Ok <==> (old(input)@.len() >= 161 && is_valid_pk(old(input)@.subrange(32, 65))
                && is_valid_signature(old(input)@.subrange(65, 129))),
            r is Ok ==> {
                &&& r.unwrap()@.server_nonce == old(input)@.subrange(0, 32)
                &&& r.unwrap()@.server_e_pk == old(input)@.subrange(32, 65)
                &&& r.unwrap()@.signature == old(input)@.subrange(65, 129)
                &&& r.unwrap()@.mac == old(input)@.subrange(129, 161)
                &&& final(input)@ == old(input)@.subrange(161, old(input)@.len() as int)
            },
    {
        proof { lemma_ke2_message_take_layout(input@); }
        let server_nonce = take_array(input, NONCE_LEN)?;
        let server_e_pk = NistP256::deserialize_take_pk(input)?;
        let signature = Ecdsa::deserialize_take_signature(input)?;
        let mac = take_array(input, HASH_LEN)?;
        Ok(Ke2Message { server_nonce, server_e_pk, signature, mac })
    }
}

impl Ke3Message {
    /// A copy of this message.
    pub fn duplicate(&self) -> (r: Ke3Message)
        ensures
            r@ == self@,
    {
        proof { use_type_invariant(self); }
        Ke3Message { signature: self.signature.duplicate(), mac: copy_bytes(self.mac.as_slice()) }
    }

    /// The bytes of this message.
    pub fn serialize(&self) -> (r: Vec<u8>)
        ensures
            r@ == ke3_message_bytes(self@),
            sig_bytes_ok(self@.signature),
            hash_len(self@.mac),
            r@.len() == SIG_LEN + HASH_LEN,
            r@.subrange(0, 64) == self@.signature,
            r@.subrange(64, 96) == self@.mac,
            forall|rest: Seq<u8>| #[trigger] ke3_message_take_spec(r@ + rest) == (Some(self@), rest),
    {
        proof { use_type_invariant(self); }
        let r = concat_bytes(self.signature.as_bytes(), self.mac.as_slice());
        proof {
            lemma_ke3_message_layout(self@);
            assert forall|rest: Seq<u8>| #[trigger] ke3_message_take_spec(r@ + rest) == (Some(self@), rest) by {
                lemma_ke3_message_roundtrip(self@, rest);
            }
        }
        r
    }

    /// Takes a third message from the front of `input`.
    ///
    /// Fails with [`ProtocolError::SerializationError`] where the input is too
    /// short or the signature does not decode.
    pub fn deserialize_take(input: &mut &[u8]) -> (r: Result<Ke3Message, ProtocolError>)
        ensures
            final(input)@ == ke3_message_take_spec(old(input)@).1,
            r is Ok <==> ke3_message_take_spec(old(input)@).0 is Some,
            r is Ok ==> r.unwrap()@ == ke3_message_take_spec(old(input)@).0.unwrap(),
            r is Err ==> r == Err::<Ke3Message, ProtocolError>(ProtocolError::SerializationError),
            r is Ok <==> (old(input)@.len() >= 96 && is_valid_signature(old(input)@.subrange(0, 64))),
            r is Ok ==> {
                &&& r.unwrap()@.signature == old(input)@.subrange(0, 64)
                &&& r.unwrap()@.mac == old(input)@.subrange(64, 96)
                &&& final(input)@ == old(input)@.subrange(96, old(input)@.len() as int)
            },
    {
        proof { lemma_ke3_message_take_layout(input@); }
        let signature = Ecdsa::deserialize_take_signature(input)?;
        let mac = take_array(input, HASH_LEN)?;
        Ok(Ke3Message { signature, mac })
    }
}

//////////////////////////
// Laws
//////////////////////////

/// Splitting `a + b + rest` after `a` gives `b + rest`.
proof fn lemma_split(a: Seq<u8>, b: Seq<u8>)
    ensures
        (a + b).subrange(0, a.len() as int) == a,
        (a + b).subrange(a.len() as int, (a + b).len() as int) == b,
{
    assert((a + b).subrange(0, a.len() as int) =~= a);
    assert((a + b).subrange(a.len() as int, (a + b).len() as int) =~= b);
}

/// A server state read back from its bytes, with anything after them, is the
/// same state, and what came after is left.
pub proof fn lemma_ke2_state_roundtrip(v: Ke2StateView, rest: Seq<u8>)
    requires
        pk_bytes_ok(v.client_s_pk),
        hash_len(v.session_key),
        hash_len(v.verify_state),
        hash_len(v.expected_mac),
    ensures
        ke2_state_take_spec(ke2_state_bytes(v) + rest) == (Some(v), rest),
{
    let r3 = v.expected_mac + rest;
    let r2 = v.verify_state + r3;
    let r1 = v.session_key + r2;
    lemma_split(v.client_s_pk, r1);
    lemma_split(v.session_key, r2);
    lemma_split(v.verify_state, r3);
    lemma_split(v.expected_mac, rest);
    assert(ke2_state_bytes(v) + rest == v.client_s_pk + r1);
}

/// What is read as a server state is exactly the bytes it was read from.
pub proof fn lemma_ke2_state_take_bytes(input: Seq<u8>)
    ensures
        ke2_state_take_spec(input).0 is Some ==> {
            let v = ke2_state_take_spec(input).0.unwrap();
            &&& ke2_state_bytes(v) + ke2_state_take_spec(input).1 == input
            &&& pk_bytes_ok(v.client_s_pk)
            &&& hash_len(v.session_key)
            &&& hash_len(v.verify_state)
            &&& hash_len(v.expected_mac)
        },
{
    if ke2_state_take_spec(input).0 is Some {
        let v = ke2_state_take_spec(input).0.unwrap();
        let r1 = input.subrange(PK_LEN as int, input.len() as int);
        let r2 = r1.subrange(HASH_LEN as int, r1.len() as int);
        let r3 = r2.subrange(HASH_LEN as int, r2.len() as int);
        let r4 = r3.subrange(HASH_LEN as int, r3.len() as int);
        assert(v.expected_mac + r4 =~= r3);
        assert(v.verify_state + r3 =~= r2);
        assert(v.session_key + r2 =~= r1);
        assert(v.client_s_pk + r1 =~= input);
        assert(ke2_state_bytes(v) + r4 =~= input);
    }
}

/// A second message read back from its bytes, with anything after them, is
/// the same message, and what came after is left.
pub proof fn lemma_ke2_message_roundtrip(v: Ke2MessageView, rest: Seq<u8>)
    requires
        v.server_nonce.len() == NONCE_LEN,
        pk_bytes_ok(v.server_e_pk),
        sig_bytes_ok(v.signature),
        hash_len(v.mac),
    ensures
        ke2_message_take_spec(ke2_message_bytes(v) + rest) == (Some(v), rest),
{
    let r3 = v.mac + rest;
    let r2 = v.signature + r3;
    let r1 = v.server_e_pk + r2;
    lemma_split(v.server_nonce, r1);
    lemma_split(v.server_e_pk, r2);
    lemma_split(v.signature, r3);
    lemma_split(v.mac, rest);
    assert(ke2_message_bytes(v) + rest == v.server_nonce + r1);
}

/// What is read as a second message is exactly the bytes it was read from.
pub proof fn lemma_ke2_message_take_bytes(input: Seq<u8>)
    ensures
        ke2_message_take_spec(input).0 is Some ==> {
            let v = ke2_message_take_spec(input).0.unwrap();
            &&& ke2_message_bytes(v) + ke2_message_take_spec(input).1 == input
            &&& v.server_nonce.len() == NONCE_LEN
            &&& pk_bytes_ok(v.server_e_pk)
            &&& sig_bytes_ok(v.signature)
            &&& hash_len(v.mac)
        },
{
    if ke2_message_take_spec(input).0 is Some {
        let v = ke2_message_take_spec(input).0.unwrap();
        let r1 = input.subrange(NONCE_LEN as int, input.len() as int);
        let r2 = r1.subrange(PK_LEN as int, r1.len() as int);
        let r3 = r2.subrange(SIG_LEN as int, r2.len() as int);
        let r4 = r3.subrange(HASH_LEN as int, r3.len() as int);
        assert(v.mac + r4 =~= r3);
        assert(v.signature + r3 =~= r2);
        assert(v.server_e_pk + r2 =~= r1);
        assert(v.server_nonce + r1 =~= input);
        assert(ke2_message_bytes(v) + r4 =~= input);
    }
}

/// A third message read back from its bytes, with anything after them, is
/// the same message, and what came after is left.
pub proof fn lemma_ke3_message_roundtrip(v: Ke3MessageView, rest: Seq<u8>)
    requires
        sig_bytes_ok(v.signature),
        hash_len(v.mac),
    ensures
        ke3_message_take_spec(ke3_message_bytes(v) + rest) == (Some(v), rest),
{
    let r1 = v.mac + rest;
    lemma_split(v.signature, r1);
    lemma_split(v.mac, rest);
    assert(ke3_message_bytes(v) + rest == v.signature + r1);
}

/// What is read as a third message is exactly the bytes it was read from.
pub proof fn lemma_ke3_message_take_bytes(input: Seq<u8>)
    ensures
        ke3_message_take_spec(input).0 is Some ==> {
            let v = ke3_message_take_spec(input).0.unwrap();
            &&& ke3_message_bytes(v) + ke3_message_take_spec(input).1 == input
            &&& sig_bytes_ok(v.signature)
            &&& hash_len(v.mac)
        },
{
    if ke3_message_take_spec(input).0 is Some {
        let v = ke3_message_take_spec(input).0.unwrap();
        let r1 = input.subrange(SIG_LEN as int, input.len() as int);
        let r2 = r1.subrange(HASH_LEN as int, r1.len() as int);
        assert(v.mac + r2 =~= r1);
        assert(v.signature + r1 =~= input);
        assert(ke3_message_bytes(v) + r2 =~= input);
    }
}

/// An honest login succeeds.
///
/// Where the client and the server run the exchange on the same credential
/// request and response, identities and context, where Diffie-Hellman agrees
/// on the ephemeral keys, and where every ECDSA signature that is produced
/// verifies under the signer's public key: once the server has signed, the
/// client either accepts the second message or fails only because its own
/// signing failed; where it accepts, the server accepts its third message and
/// both hold the same session key.
pub proof fn lemma_sigma_i_login_succeeds(
    client_e_sk: Seq<u8>,
    client_nonce: Seq<u8>,
    client_s_sk: Seq<u8>,
    server_e_sk: Seq<u8>,
    server_nonce: Seq<u8>,
    server_s_sk: Seq<u8>,
    credential_request: Seq<u8>,
    credential_response: Seq<u8>,
    client_id: Seq<u8>,
    server_id: Seq<u8>,
    context: Seq<u8>,
    server_ad: Seq<u8>,
    client_ad: Seq<u8>,
)
    requires
        sk_bytes_ok(client_s_sk),
        sk_bytes_ok(server_s_sk),
        client_id.len() < 65536,
        dh_spec(server_e_sk, public_key_spec(client_e_sk)) == dh_spec(client_e_sk, public_key_spec(server_e_sk)),
        forall|sk: Seq<u8>, h: Seq<u8>, ad: Seq<u8>|
            sk_bytes_ok(sk) && (#[trigger] ecdsa_sign_spec(sk, h, ad)) is Some ==> ecdsa_verify_spec(
                public_key_spec(sk),
                h,
                ecdsa_sign_spec(sk, h, ad).unwrap(),
            ),
    ensures
        ({
            let ke1 = Ke1MessageView { client_nonce, client_e_pk: public_key_spec(client_e_sk) };
            let builder = ke2_builder_spec(
                server_e_sk,
                server_nonce,
                credential_request,
                ke1,
                credential_response,
                public_key_spec(client_s_sk),
                client_id,
                server_id,
                context,
            );
            let server_signature = ecdsa_sign_spec(server_s_sk, sha256_spec(builder.sign_message()), server_ad);
            server_signature is Some ==> {
                let (state, ke2) = build_ke2_spec(
                    builder,
                    server_signature.unwrap(),
                    sha256_spec(builder.verify_message()),
                );
                let client = generate_ke3_spec(
                    client_ad,
                    credential_request,
                    ke1,
                    credential_response,
                    client_e_sk,
                    ke2,
                    public_key_spec(server_s_sk),
                    client_s_sk,
                    client_id,
                    server_id,
                    context,
                );
                &&& client is Ok || client == Err::<(Seq<u8>, Ke3MessageView), ProtocolError>(
                    ProtocolError::LibraryError(InternalError::SignatureError),
                )
                &&& client is Ok ==> finish_ke_spec(state, client.unwrap().1, client_id) == Ok::<
                    Seq<u8>,
                    ProtocolError,
                >(client.unwrap().0)
                &&& client is Ok ==> state.session_key == client.unwrap().0
            }
        }),
{
    let ke1 = Ke1MessageView { client_nonce, client_e_pk: public_key_spec(client_e_sk) };
    let builder = ke2_builder_spec(
        server_e_sk,
        server_nonce,
        credential_request,
        ke1,
        credential_response,
        public_key_spec(client_s_sk),
        client_id,
        server_id,
        context,
    );
    let server_signature = ecdsa_sign_spec(server_s_sk, sha256_spec(builder.sign_message()), server_ad);
    if server_signature is Some {
        let (state, ke2) = build_ke2_spec(builder, server_signature.unwrap(), sha256_spec(builder.verify_message()));
        let preamble = preamble_spec(
            context,
            client_id,
            credential_request,
            ke1_bytes(ke1),
            server_id,
            credential_response,
            ke2.server_nonce,
            ke2.server_e_pk,
        );
        let keys = derive_keys_spec(dh_spec(client_e_sk, ke2.server_e_pk), sha256_spec(preamble));
        let cache = CachedMessageView {
            credential_request,
            ke1: ke1_bytes(ke1),
            credential_response,
            server_nonce: ke2.server_nonce,
            server_e_pk: ke2.server_e_pk,
            server_mac: hmac_spec(keys.km2, len_prefixed(server_id)),
        };
        let sign_hash = sha256_spec(signed_message_spec(Role::Client, context, client_id, cache));
        let verify_hash = sha256_spec(signed_message_spec(Role::Server, context, server_id, cache));
        assert(verify_hash == sha256_spec(builder.sign_message()));
        assert(state.verify_state == sha256_spec(signed_message_spec(Role::Client, context, client_id, cache)));
        if ecdsa_sign_spec(client_s_sk, sign_hash, client_ad) is Some {
            assert(ecdsa_verify_spec(public_key_spec(client_s_sk), sign_hash, ecdsa_sign_spec(client_s_sk, sign_hash, client_ad).unwrap()));
        }
    }
}

/// The server's builder: with `th` the SHA-256 hash of the preamble and the
/// keys those of the key schedule of the ephemeral Diffie-Hellman secret
/// (the server's ephemeral private key with the client's ephemeral public
/// key) and `th`, the session key is the schedule's session key, the server's
/// MAC is the HMAC under `km2` of the server's identity preceded by its
/// two-byte length, and the MAC expected from the client is the HMAC under
/// `km3` of the client's identity preceded by its two-byte length.
pub proof fn lemma_sigma_i_ke2_builder(
    server_e_sk: Seq<u8>,
    server_nonce: Seq<u8>,
    credential_request: Seq<u8>,
    ke1: Ke1MessageView,
    credential_response: Seq<u8>,
    client_s_pk: Seq<u8>,
    client_id: Seq<u8>,
    server_id: Seq<u8>,
    context: Seq<u8>,
)
    ensures
        ({
            let server_e_pk = public_key_spec(server_e_sk);
            let preamble = preamble_spec(
                context,
                client_id,
                credential_request,
                ke1.client_nonce + ke1.client_e_pk,
                server_id,
                credential_response,
                server_nonce,
                server_e_pk,
            );
            let keys = derive_keys_spec(dh_spec(server_e_sk, ke1.client_e_pk), sha256_spec(preamble));
            let b = ke2_builder_spec(
                server_e_sk,
                server_nonce,
                credential_request,
                ke1,
                credential_response,
                client_s_pk,
                client_id,
                server_id,
                context,
            );
            &&& b.session_key == keys.session_key
            &&& b.cache.server_mac == hmac_spec(
                keys.km2,
                seq![(server_id.len() / 256) as u8, (server_id.len() % 256) as u8] + server_id,
            )
            &&& b.expected_mac == hmac_spec(
                keys.km3,
                seq![(client_id.len() / 256) as u8, (client_id.len() % 256) as u8] + client_id,
            )
            &&& b.server_e_pk == server_e_pk
            &&& b.server_nonce == server_nonce
            &&& b.client_s_pk == client_s_pk
            &&& b.context == context
            &&& b.client_id == client_id
            &&& b.server_id == server_id
            &&& b.cache.credential_request == credential_request
            &&& b.cache.ke1 == ke1.client_nonce + ke1.client_e_pk
            &&& b.cache.credential_response == credential_response
            &&& b.cache.server_nonce == server_nonce
            &&& b.cache.server_e_pk == server_e_pk
            &&& b.sign_message() == signed_message_spec(Role::Server, context, server_id, b.cache)
            &&& b.verify_message() == signed_message_spec(Role::Client, context, client_id, b.cache)
        }),
{
}

/// The client's last step: with the keys those of the key schedule of its
/// ephemeral private key with the server's ephemeral public key and the hash
/// of the preamble, it fails with `InvalidLoginError` unless the second
/// message's MAC is the HMAC under `km2` of the server's identity preceded by
/// its two-byte length; where it succeeds, the session key is the schedule's
/// session key, and the third message's MAC is the HMAC under `km3` of the
/// client's identity preceded by its two-byte length.
pub proof fn lemma_sigma_i_generate_ke3(
    ad: Seq<u8>,
    credential_request: Seq<u8>,
    ke1: Ke1MessageView,
    credential_response: Seq<u8>,
    client_e_sk: Seq<u8>,
    ke2: Ke2MessageView,
    server_s_pk: Seq<u8>,
    client_s_sk: Seq<u8>,
    client_id: Seq<u8>,
    server_id: Seq<u8>,
    context: Seq<u8>,
)
    ensures
        ({
            let preamble = preamble_spec(
                context,
                client_id,
                credential_request,
                ke1.client_nonce + ke1.client_e_pk,
                server_id,
                credential_response,
                ke2.server_nonce,
                ke2.server_e_pk,
            );
            let keys = derive_keys_spec(dh_spec(client_e_sk, ke2.server_e_pk), sha256_spec(preamble));
            let server_mac = hmac_spec(
                keys.km2,
                seq![(server_id.len() / 256) as u8, (server_id.len() % 256) as u8] + server_id,
            );
            let outcome = generate_ke3_spec(
                ad,
                credential_request,
                ke1,
                credential_response,
                client_e_sk,
                ke2,
                server_s_pk,
                client_s_sk,
                client_id,
                server_id,
                context,
            );
            &&& ke2.mac != server_mac ==> outcome == Err::<(Seq<u8>, Ke3MessageView), ProtocolError>(
                ProtocolError::InvalidLoginError,
            )
            &&& outcome is Ok ==> ke2.mac == server_mac
            &&& outcome is Ok ==> outcome.unwrap().0 == keys.session_key
            &&& outcome is Ok ==> outcome.unwrap().1.mac == hmac_spec(
                keys.km3,
                seq![(client_id.len() / 256) as u8, (client_id.len() % 256) as u8] + client_id,
            )
            &&& ke2.mac == server_mac ==> {
                let cache = CachedMessageView {
                    credential_request,
                    ke1: ke1.client_nonce + ke1.client_e_pk,
                    credential_response,
                    server_nonce: ke2.server_nonce,
                    server_e_pk: ke2.server_e_pk,
                    server_mac,
                };
                let signed = ecdsa_sign_spec(
                    client_s_sk,
                    sha256_spec(signed_message_spec(Role::Client, context, client_id, cache)),
                    ad,
                );
                let verified = ecdsa_verify_spec(
                    server_s_pk,
                    sha256_spec(signed_message_spec(Role::Server, context, server_id, cache)),
                    ke2.signature,
                );
                &&& signed is None ==> outcome == Err::<(Seq<u8>, Ke3MessageView), ProtocolError>(
                    ProtocolError::LibraryError(InternalError::SignatureError),
                )
                &&& signed is Some && !verified ==> outcome == Err::<(Seq<u8>, Ke3MessageView), ProtocolError>(
                    ProtocolError::InvalidLoginError,
                )
                &&& outcome is Ok <==> (signed is Some && verified)
                &&& outcome is Ok ==> outcome.unwrap().1.signature == signed.unwrap()
            }
        }),
{
}

/// The server's second step: the state keeps the client's static public key,
/// the session key, the pre-hash of the client's message and the MAC it
/// expects from the client; the second message carries the server's nonce,
/// its ephemeral public key, its signature and its own MAC.
pub proof fn lemma_sigma_i_build_ke2(b: Ke2BuilderView, signature: Seq<u8>, verify_state: Seq<u8>)
    ensures
        ({
            let (state, message) = build_ke2_spec(b, signature, verify_state);
            &&& state.client_s_pk == b.client_s_pk
            &&& state.session_key == b.session_key
            &&& state.verify_state == verify_state
            &&& state.expected_mac == b.expected_mac
            &&& message.server_nonce == b.server_nonce
            &&& message.server_e_pk == b.server_e_pk
            &&& message.signature == signature
            &&& message.mac == b.cache.server_mac
        }),
{
}

/// The server's last step succeeds exactly where the client's identity fits
/// in two bytes of length, the client's signature verifies against the kept
/// pre-hash under the client's static key, and the client's MAC is the one
/// expected; it then gives the kept session key.
pub proof fn lemma_sigma_i_finish_ke(state: Ke2StateView, ke3: Ke3MessageView, client_id: Seq<u8>)
    ensures
        finish_ke_spec(state, ke3, client_id) is Ok <==> (client_id.len() < 65536 && ecdsa_verify_spec(
            state.client_s_pk,
            state.verify_state,
            ke3.signature,
        ) && state.expected_mac == ke3.mac),
        finish_ke_spec(state, ke3, client_id) is Ok ==> finish_ke_spec(state, ke3, client_id) == Ok::<
            Seq<u8>,
            ProtocolError,
        >(state.session_key),
        client_id.len() >= 65536 ==> finish_ke_spec(state, ke3, client_id) == Err::<Seq<u8>, ProtocolError>(
            ProtocolError::SerializationError,
        ),
        client_id.len() < 65536 && finish_ke_spec(state, ke3, client_id) is Err ==> finish_ke_spec(
            state,
            ke3,
            client_id,
        ) == Err::<Seq<u8>, ProtocolError>(ProtocolError::InvalidLoginError),
{
}

/// The bytes of a third message: the signature in bytes 0 to 64, the MAC in
/// bytes 64 to 96.
pub proof fn lemma_ke3_message_layout(v: Ke3MessageView)
    requires
        v.signature.len() == SIG_LEN,
        hash_len(v.mac),
    ensures
        ke3_message_bytes(v).len() == 96,
        ke3_message_bytes(v).subrange(0, 64) == v.signature,
        ke3_message_bytes(v).subrange(64, 96) == v.mac,
{
    assert(ke3_message_bytes(v).subrange(0, 64) =~= v.signature);
    assert(ke3_message_bytes(v).subrange(64, 96) =~= v.mac);
}

/// Reading a third message: it succeeds exactly where there are at least 96
/// bytes and the first 64 encode a signature; the signature is those 64
/// bytes, the MAC the next 32, and what follows is left.
pub proof fn lemma_ke3_message_take_layout(input: Seq<u8>)
    ensures
        ke3_message_take_spec(input).0 is Some <==> (input.len() >= 96 && is_valid_signature(input.subrange(0, 64))),
        ke3_message_take_spec(input).0 is Some ==> {
            let v = ke3_message_take_spec(input).0.unwrap();
            &&& v.signature == input.subrange(0, 64)
            &&& v.mac == input.subrange(64, 96)
            &&& ke3_message_take_spec(input).1 == input.subrange(96, input.len() as int)
        },
{
    if input.len() >= 64 {
        let r1 = input.subrange(64, input.len() as int);
        if r1.len() >= 32 {
            assert(r1.subrange(0, 32) =~= input.subrange(64, 96));
            assert(r1.subrange(32, r1.len() as int) =~= input.subrange(96, input.len() as int));
        }
    }
}

/// The bytes of a second message: the nonce in bytes 0 to 32, the server's
/// ephemeral public key in bytes 32 to 65, the signature in bytes 65 to 129,
/// the MAC in bytes 129 to 161.
pub proof fn lemma_ke2_message_layout(v: Ke2MessageView)
    requires
        v.server_nonce.len() == NONCE_LEN,
        v.server_e_pk.len() == PK_LEN,
        v.signature.len() == SIG_LEN,
        hash_len(v.mac),
    ensures
        ke2_message_bytes(v).len() == 161,
        ke2_message_bytes(v).subrange(0, 32) == v.server_nonce,
        ke2_message_bytes(v).subrange(32, 65) == v.server_e_pk,
        ke2_message_bytes(v).subrange(65, 129) == v.signature,
        ke2_message_bytes(v).subrange(129, 161) == v.mac,
{
    assert(ke2_message_bytes(v).subrange(0, 32) =~= v.server_nonce);
    assert(ke2_message_bytes(v).subrange(32, 65) =~= v.server_e_pk);
    assert(ke2_message_bytes(v).subrange(65, 129) =~= v.signature);
    assert(ke2_message_bytes(v).subrange(129, 161) =~= v.mac);
}

/// Reading a second message: it succeeds exactly where there are at least
/// 161 bytes, bytes 32 to 65 encode a public key and bytes 65 to 129 a
/// signature; the fields are the nonce in bytes 0 to 32, the key, the
/// signature and the MAC in bytes 129 to 161, and what follows is left.
pub proof fn lemma_ke2_message_take_layout(input: Seq<u8>)
    ensures
        ke2_message_take_spec(input).0 is Some <==> (input.len() >= 161 && is_valid_pk(input.subrange(32, 65))
            && is_valid_signature(input.subrange(65, 129))),
        ke2_message_take_spec(input).0 is Some ==> {
            let v = ke2_message_take_spec(input).0.unwrap();
            &&& v.server_nonce == input.subrange(0, 32)
            &&& v.server_e_pk == input.subrange(32, 65)
            &&& v.signature == input.subrange(65, 129)
            &&& v.mac == input.subrange(129, 161)
            &&& ke2_message_take_spec(input).1 == input.subrange(161, input.len() as int)
        },
{
    if input.len() >= 32 {
        let r1 = input.subrange(32, input.len() as int);
        if r1.len() >= 33 {
            assert(r1.subrange(0, 33) =~= input.subrange(32, 65));
            let r2 = r1.subrange(33, r1.len() as int);
            assert(r2 =~= input.subrange(65, input.len() as int));
            if r2.len() >= 64 {
                assert(r2.subrange(0, 64) =~= input.subrange(65, 129));
                let r3 = r2.subrange(64, r2.len() as int);
                assert(r3 =~= input.subrange(129, input.len() as int));
                if r3.len() >= 32 {
                    assert(r3.subrange(0, 32) =~= input.subrange(129, 161));
                    assert(r3.subrange(32, r3.len() as int) =~= input.subrange(161, input.len() as int));
                }
            }
        }
    }
}

/// The bytes of a server state: the client's static public key in bytes 0 to
/// 33, the session key in bytes 33 to 65, the pre-hash to verify in bytes 65
/// to 97, the expected MAC in bytes 97 to 129.
pub proof fn lemma_ke2_state_layout(v: Ke2StateView)
    requires
        v.client_s_pk.len() == PK_LEN,
        hash_len(v.session_key),
        hash_len(v.verify_state),
        hash_len(v.expected_mac),
    ensures
        ke2_state_bytes(v).len() == 129,
        ke2_state_bytes(v).subrange(0, 33) == v.client_s_pk,
        ke2_state_bytes(v).subrange(33, 65) == v.session_key,
        ke2_state_bytes(v).subrange(65, 97) == v.verify_state,
        ke2_state_bytes(v).subrange(97, 129) == v.expected_mac,
{
    assert(ke2_state_bytes(v).subrange(0, 33) =~= v.client_s_pk);
    assert(ke2_state_bytes(v).subrange(33, 65) =~= v.session_key);
    assert(ke2_state_bytes(v).subrange(65, 97) =~= v.verify_state);
    assert(ke2_state_bytes(v).subrange(97, 129) =~= v.expected_mac);
}

/// Reading a server state: it succeeds exactly where there are at least 129
/// bytes and the first 33 encode a public key; the fields are the key, the
/// session key in bytes 33 to 65, the pre-hash in bytes 65 to 97 and the
/// expected MAC in bytes 97 to 129, and what follows is left.
pub proof fn lemma_ke2_state_take_layout(input: Seq<u8>)
    ensures
        ke2_state_take_spec(input).0 is Some <==> (input.len() >= 129 && is_valid_pk(input.subrange(0, 33))),
        ke2_state_take_spec(input).0 is Some ==> {
            let v = ke2_state_take_spec(input).0.unwrap();
            &&& v.client_s_pk == input.subrange(0, 33)
            &&& v.session_key == input.subrange(33, 65)
            &&& v.verify_state == input.subrange(65, 97)
            &&& v.expected_mac == input.subrange(97, 129)
            &&& ke2_state_take_spec(input).1 == input.subrange(129, input.len() as int)
        },
{
    if input.len() >= 33 {
        let r1 = input.subrange(33, input.len() as int);
        if r1.len() >= 32 {
            assert(r1.subrange(0, 32) =~= input.subrange(33, 65));
            let r2 = r1.subrange(32, r1.len() as int);
            assert(r2 =~= input.subrange(65, input.len() as int));
            if r2.len() >= 32 {
                assert(r2.subrange(0, 32) =~= input.subrange(65, 97));
                let r3 = r2.subrange(32, r2.len() as int);
                assert(r3 =~= input.subrange(97, input.len() as int));
                if r3.len() >= 32 {
                    assert(r3.subrange(0, 32) =~= input.subrange(97, 129));
                    assert(r3.subrange(32, r3.len() as int) =~= input.subrange(129, input.len() as int));
                }
            }
        }
    }
}

} // verus!
