//! The messages that the parties of SIGMA-I sign: each binds the signer's
//! role and identity, the context and the whole transcript of the exchange.
use vstd::prelude::*;
use crate::hash::{sha256, sha256_spec, HASH_LEN};
use crate::key_exchange::shared::{SerializedContext, SerializedIdentifier, SerializedIdentifiers};
use crate::serialization::{append_bytes, append_len_prefixed, copy_bytes, len_prefixed};

verus! {

/// The prefix of every signed message: `"OPAQUE-SIGMA-I-"`.
pub const STR_SIGMA_I: [u8; 15] = [
    0x4f, 0x50, 0x41, 0x51, 0x55, 0x45, 0x2d, 0x53, 0x49, 0x47, 0x4d, 0x41,
    0x2d, 0x49, 0x2d,
];

/// The label of the server's signed message: `"Server"`.
pub const STR_SERVER: [u8; 6] = [
    0x53, 0x65, 0x72, 0x76, 0x65, 0x72,
];

/// The label of the client's signed message: `"Client"`.
pub const STR_CLIENT: [u8; 6] = [
    0x43, 0x6c, 0x69, 0x65, 0x6e, 0x74,
];

/// Which party a signed message belongs to.
#[derive(Clone, Copy, Debug, PartialEq, Eq)]
pub enum Role {
    Server,
    Client,
}

/// The other party.
pub open spec fn other_role(role: Role) -> Role {
    match role {
        Role::Server => Role::Client,
        Role::Client => Role::Server,
    }
}

/// The label of a party's signed message.
pub open spec fn role_label(role: Role) -> Seq<u8> {
    match role {
        Role::Server => STR_SERVER@,
        Role::Client => STR_CLIENT@,
    }
}

/// The identity of the party in `role`.
pub open spec fn role_identifier(role: Role, client_id: Seq<u8>, server_id: Seq<u8>) -> Seq<u8> {
    match role {
        Role::Server => server_id,
        Role::Client => client_id,
    }
}

/// What the transcript of the exchange holds.
pub struct CachedMessageView {
    pub credential_request: Seq<u8>,
    pub ke1: Seq<u8>,
    pub credential_response: Seq<u8>,
    pub server_nonce: Seq<u8>,
    pub server_e_pk: Seq<u8>,
    pub server_mac: Seq<u8>,
}

/// The transcript of the exchange, as both parties see it.
#[derive(Debug, PartialEq, Eq)]
pub struct CachedMessage {
    pub credential_request: Vec<u8>,
    pub ke1_message: Vec<u8>,
    pub credential_response: Vec<u8>,
    pub server_nonce: Vec<u8>,
    pub server_e_pk: Vec<u8>,
    pub server_mac: Vec<u8>,
}

impl View for CachedMessage {
    type V = CachedMessageView;

    open spec fn view(&self) -> CachedMessageView {
        CachedMessageView {
            credential_request: self.credential_request@,
            ke1: self.ke1_message@,
            credential_response: self.credential_response@,
            server_nonce: self.server_nonce@,
            server_e_pk: self.server_e_pk@,
            server_mac: self.server_mac@,
        }
    }
}

/// The bytes of the transcript, in the order of the exchange.
pub open spec fn cached_bytes(c: CachedMessageView) -> Seq<u8> {
    c.credential_request + c.ke1 + c.credential_response + c.server_nonce + c.server_e_pk + c.server_mac
}

/// The message that the party in `role` signs: the prefix, its role's label,
/// the context and its identity (each preceded by its length), and the
/// transcript.
pub open spec fn signed_message_spec(role: Role, context: Seq<u8>, signer_id: Seq<u8>, cache: CachedMessageView) -> Seq<u8> {
    STR_SIGMA_I@ + role_label(role) + len_prefixed(context) + len_prefixed(signer_id) + cached_bytes(cache)
}

/// The messages of one party: the one it signs and the one it verifies.
#[derive(Debug, PartialEq, Eq)]
pub struct Message {
    pub role: Role,
    pub context: SerializedContext,
    pub identifiers: SerializedIdentifiers,
    pub cache: CachedMessage,
}

/// The hashes of both messages of a party.
pub struct HashOutput {
    pub sign: Vec<u8>,
    pub verify: Vec<u8>,
}

/// What a verifier needs beside the signature: the signer's role, the
/// context and the signer's identity.
pub struct MessageBuilder<'a> {
    pub role: Role,
    pub context: &'a SerializedContext,
    pub identifier: SerializedIdentifier,
}

impl Message {
    /// The message this party signs.
    pub open spec fn sign_message_spec(&self) -> Seq<u8> {
        signed_message_spec(
            self.role,
            self.context@,
            role_identifier(self.role, self.identifiers.client_spec(), self.identifiers.server_spec()),
            self.cache@,
        )
    }

    /// The message this party verifies: the one its peer signs.
    pub open spec fn verify_message_spec(&self) -> Seq<u8> {
        signed_message_spec(
            other_role(self.role),
            self.context@,
            role_identifier(other_role(self.role), self.identifiers.client_spec(), self.identifiers.server_spec()),
            self.cache@,
        )
    }

    fn message_for(&self, role: Role) -> (r: Vec<u8>)
        ensures
            r@ == signed_message_spec(
                role,
                self.context@,
                role_identifier(role, self.identifiers.client_spec(), self.identifiers.server_spec()),
                self.cache@,
            ),
            ({
                let id = if role is Server { self.identifiers.server_spec() } else { self.identifiers.client_spec() };
                let c = self.cache@;
                let n = self.context@.len();
                &&& r@.len() == 15 + 6 + 2 + n + 2 + id.len() + c.credential_request.len() + c.ke1.len()
                    + c.credential_response.len() + c.server_nonce.len() + c.server_e_pk.len() + c.server_mac.len()
                &&& r@.subrange(0, 15) == STR_SIGMA_I@
                &&& r@.subrange(15, 21) == (if role is Server { STR_SERVER@ } else { STR_CLIENT@ })
                &&& r@.subrange(23, 23 + n as int) == self.context@
                &&& r@.subrange(25 + n as int, 25 + n + id.len() as int) == id
                &&& r@.subrange(r@.len() - c.server_mac.len(), r@.len() as int) == c.server_mac
            }),
    {
        proof {
            lemma_signed_message_layout(
                role,
                self.context@,
                role_identifier(role, self.identifiers.client_spec(), self.identifiers.server_spec()),
                self.cache@,
            );
        }
        let prefix: [u8; 15] = STR_SIGMA_I;
        let server: [u8; 6] = STR_SERVER;
        let client: [u8; 6] = STR_CLIENT;
        let mut r = copy_bytes(prefix.as_slice());
        match role {
            Role::Server => append_bytes(&mut r, server.as_slice()),
            Role::Client => append_bytes(&mut r, client.as_slice()),
        }
        append_len_prefixed(&mut r, self.context.as_bytes());
        match role {
            Role::Server => append_len_prefixed(&mut r, self.identifiers.server()),
            Role::Client => append_len_prefixed(&mut r, self.identifiers.client()),
        }
        append_bytes(&mut r, self.cache.credential_request.as_slice());
        append_bytes(&mut r, self.cache.ke1_message.as_slice());
        append_bytes(&mut r, self.cache.credential_response.as_slice());
        append_bytes(&mut r, self.cache.server_nonce.as_slice());
        append_bytes(&mut r, self.cache.server_e_pk.as_slice());
        append_bytes(&mut r, self.cache.server_mac.as_slice());
        r
    }

    /// The message this party signs.
    pub fn sign_message(&self) -> (r: Vec<u8>)
        ensures
            r@ == self.sign_message_spec(),
            ({
                let id = if self.role is Server { self.identifiers.server_spec() } else { self.identifiers.client_spec() };
                let c = self.cache@;
                let n = self.context@.len();
                &&& r@.len() == 15 + 6 + 2 + n + 2 + id.len() + c.credential_request.len() + c.ke1.len()
                    + c.credential_response.len() + c.server_nonce.len() + c.server_e_pk.len() + c.server_mac.len()
                &&& r@.subrange(0, 15) == STR_SIGMA_I@
                &&& r@.subrange(15, 21) == (if self.role is Server { STR_SERVER@ } else { STR_CLIENT@ })
                &&& r@.subrange(23, 23 + n as int) == self.context@
                &&& r@.subrange(25 + n as int, 25 + n + id.len() as int) == id
                &&& r@.subrange(r@.len() - c.server_mac.len(), r@.len() as int) == c.server_mac
            }),
    {
        self.message_for(self.role)
    }

    /// The message this party verifies.
    pub fn verify_message(&self) -> (r: Vec<u8>)
        ensures
            r@ == self.verify_message_spec(),
            ({
                let id = if self.role is Server { self.identifiers.client_spec() } else { self.identifiers.server_spec() };
                let c = self.cache@;
                let n = self.context@.len();
                &&& r@.len() == 15 + 6 + 2 + n + 2 + id.len() + c.credential_request.len() + c.ke1.len()
                    + c.credential_response.len() + c.server_nonce.len() + c.server_e_pk.len() + c.server_mac.len()
                &&& r@.subrange(0, 15) == STR_SIGMA_I@
                &&& r@.subrange(15, 21) == (if other_role(self.role) is Server { STR_SERVER@ } else { STR_CLIENT@ })
                &&& r@.subrange(23, 23 + n as int) == self.context@
                &&& r@.subrange(25 + n as int, 25 + n + id.len() as int) == id
                &&& r@.subrange(r@.len() - c.server_mac.len(), r@.len() as int) == c.server_mac
            }),
    {
        let other = match self.role {
            Role::Server => Role::Client,
            Role::Client => Role::Server,
        };
        self.message_for(other)
    }

    /// The SHA-256 hashes of both messages.
    pub fn hash(&self) -> (r: HashOutput)
        ensures
            r.sign@ == sha256_spec(self.sign_message_spec()),
            r.verify@ == sha256_spec(self.verify_message_spec()),
            r.sign@.len() == HASH_LEN,
            r.verify@.len() == HASH_LEN,
    {
        let sign = sha256(self.sign_message().as_slice());
        let verify = sha256(self.verify_message().as_slice());
        HashOutput { sign, verify }
    }
}

/// A signed message, field by field: the 15 bytes `"OPAQUE-SIGMA-I-"`, the
/// 6 bytes `"Server"` or `"Client"` by the signer's role, the context and the
/// signer's identity (each preceded by its length in two big-endian bytes),
/// then the credential request, the first message, the credential response,
/// the server's nonce, the server's ephemeral public key, and last the
/// server's MAC, back to back and nothing else.
#[verifier::spinoff_prover]
#[verifier::rlimit(40)]
pub proof fn lemma_signed_message_layout(role: Role, context: Seq<u8>, signer_id: Seq<u8>, cache: CachedMessageView)
    ensures
        ({
            let m = signed_message_spec(role, context, signer_id, cache);
            let o1: int = 23 + context.len() as int;
            let o2: int = o1 + 2;
            let o3: int = o2 + signer_id.len();
            let o4: int = o3 + cache.credential_request.len();
            let o5: int = o4 + cache.ke1.len();
            let o6: int = o5 + cache.credential_response.len();
            let o7: int = o6 + cache.server_nonce.len();
            let o8: int = o7 + cache.server_e_pk.len();
            &&& m.len() == 15 + 6 + 2 + context.len() + 2 + signer_id.len() + cache.credential_request.len()
                + cache.ke1.len() + cache.credential_response.len() + cache.server_nonce.len()
                + cache.server_e_pk.len() + cache.server_mac.len()
            &&& m.subrange(0, 15) == STR_SIGMA_I@
            &&& m.subrange(15, 21) == (if role is Server { STR_SERVER@ } else { STR_CLIENT@ })
            &&& m.subrange(21, 23) == seq![(context.len() / 256) as u8, (context.len() % 256) as u8]
            &&& m.subrange(23, o1) == context
            &&& m.subrange(o1, o2) == seq![(signer_id.len() / 256) as u8, (signer_id.len() % 256) as u8]
            &&& m.subrange(o2, o3) == signer_id
            &&& m.subrange(o3, o4) == cache.credential_request
            &&& m.subrange(o4, o5) == cache.ke1
            &&& m.subrange(o5, o6) == cache.credential_response
            &&& m.subrange(o6, o7) == cache.server_nonce
            &&& m.subrange(o7, o8) == cache.server_e_pk
            &&& m.subrange(m.len() - cache.server_mac.len(), m.len() as int) == cache.server_mac
        }),
{
    let m = signed_message_spec(role, context, signer_id, cache);
    let o1: int = 23 + context.len() as int;
    let o2: int = o1 + 2;
    let o3: int = o2 + signer_id.len();
    let o4: int = o3 + cache.credential_request.len();
    let o5: int = o4 + cache.ke1.len();
    let o6: int = o5 + cache.credential_response.len();
    let o7: int = o6 + cache.server_nonce.len();
    let o8: int = o7 + cache.server_e_pk.len();
    assert(m.subrange(0, 15) =~= STR_SIGMA_I@);
    assert(m.subrange(15, 21) =~= (if role is Server { STR_SERVER@ } else { STR_CLIENT@ }));
    assert(m.subrange(21, 23) =~= seq![(context.len() / 256) as u8, (context.len() % 256) as u8]);
    assert(m.subrange(23, o1) =~= context);
    assert(m.subrange(o1, o2) =~= seq![(signer_id.len() / 256) as u8, (signer_id.len() % 256) as u8]);
    assert(m.subrange(o2, o3) =~= signer_id);
    assert(m.subrange(o3, o4) =~= cache.credential_request);
    assert(m.subrange(o4, o5) =~= cache.ke1);
    assert(m.subrange(o5, o6) =~= cache.credential_response);
    assert(m.subrange(o6, o7) =~= cache.server_nonce);
    assert(m.subrange(o7, o8) =~= cache.server_e_pk);
    assert(m.subrange(m.len() - cache.server_mac.len(), m.len() as int) =~= cache.server_mac);
}

/// Each party signs the message of its own role and identity and verifies
/// the one of its peer: the server signs under `"Server"` with the server's
/// identity and verifies the client's message under `"Client"` with the
/// client's identity, and the client the other way round; both over the same
/// context and transcript.
pub proof fn lemma_message_roles(m: &Message)
    ensures
        m.role is Server ==> m.sign_message_spec() == signed_message_spec(
            Role::Server,
            m.context@,
            m.identifiers.server_spec(),
            m.cache@,
        ),
        m.role is Server ==> m.verify_message_spec() == signed_message_spec(
            Role::Client,
            m.context@,
            m.identifiers.client_spec(),
            m.cache@,
        ),
        m.role is Client ==> m.sign_message_spec() == signed_message_spec(
            Role::Client,
            m.context@,
            m.identifiers.client_spec(),
            m.cache@,
        ),
        m.role is Client ==> m.verify_message_spec() == signed_message_spec(
            Role::Server,
            m.context@,
            m.identifiers.server_spec(),
            m.cache@,
        ),
{
}

} // verus!
