//! Public and private keys of the P-256 group, held as their encodings.
use vstd::prelude::*;
use crate::key_exchange::group::elliptic_curve::{is_valid_pk, is_valid_sk, public_key_spec, NistP256};
use crate::key_exchange::group::{PK_LEN, SK_LEN};
use crate::serialization::copy_bytes;

verus! {

/// A P-256 public key: a point other than the identity, held as its
/// compressed SEC1 encoding.
#[derive(Debug, PartialEq, Eq)]
pub struct PublicKey {
    bytes: Vec<u8>,
}

/// A P-256 private key: a non-zero scalar, held as its 32 big-endian bytes.
#[derive(Debug, PartialEq, Eq)]
pub struct PrivateKey {
    bytes: Vec<u8>,
}

/// A private key together with its public key.
#[derive(Debug, PartialEq, Eq)]
pub struct KeyPair {
    sk: PrivateKey,
    pk: PublicKey,
}

/// A valid public key encoding: a 33-byte compressed point.
pub open spec fn pk_bytes_ok(s: Seq<u8>) -> bool {
    s.len() == PK_LEN && is_valid_pk(s)
}

/// A valid private key encoding: 32 bytes of a non-zero scalar.
pub open spec fn sk_bytes_ok(s: Seq<u8>) -> bool {
    s.len() == SK_LEN && is_valid_sk(s)
}

impl View for PublicKey {
    type V = Seq<u8>;

    closed spec fn view(&self) -> Seq<u8> {
        self.bytes@
    }
}

impl View for PrivateKey {
    type V = Seq<u8>;

    closed spec fn view(&self) -> Seq<u8> {
        self.bytes@
    }
}

impl PublicKey {
    /// Every public key holds a valid encoding.
    #[verifier::type_invariant]
    closed spec fn wf(self) -> bool {
        pk_bytes_ok(self.bytes@)
    }

    /// The key held by a valid encoding.
    pub(crate) fn from_valid_bytes(bytes: Vec<u8>) -> (r: PublicKey)
        requires
            pk_bytes_ok(bytes@),
        ensures
            r@ == bytes@,
    {
        PublicKey { bytes }
    }

    /// The encoding of this key, borrowed.
    pub fn as_bytes(&self) -> (r: &[u8])
        ensures
            r@ == self@,
            pk_bytes_ok(r@),
    {
        proof { use_type_invariant(self); }
        self.bytes.as_slice()
    }

    /// The encoding of this key.
    pub fn serialize(&self) -> (r: Vec<u8>)
        ensures
            r@ == self@,
            pk_bytes_ok(r@),
    {
        copy_bytes(self.as_bytes())
    }

    /// A copy of this key.
    pub fn duplicate(&self) -> (r: PublicKey)
        ensures
            r@ == self@,
    {
        PublicKey::from_valid_bytes(self.serialize())
    }
}

impl PrivateKey {
    /// Every private key holds a valid encoding.
    #[verifier::type_invariant]
    closed spec fn wf(self) -> bool {
        sk_bytes_ok(self.bytes@)
    }

    /// The key held by a valid encoding.
    pub(crate) fn from_valid_bytes(bytes: Vec<u8>) -> (r: PrivateKey)
        requires
            sk_bytes_ok(bytes@),
        ensures
            r@ == bytes@,
    {
        PrivateKey { bytes }
    }

    /// The encoding of this key, borrowed.
    pub fn as_bytes(&self) -> (r: &[u8])
        ensures
            r@ == self@,
            sk_bytes_ok(r@),
    {
        proof { use_type_invariant(self); }
        self.bytes.as_slice()
    }

    /// The encoding of this key.
    pub fn serialize(&self) -> (r: Vec<u8>)
        ensures
            r@ == self@,
            sk_bytes_ok(r@),
    {
        copy_bytes(self.as_bytes())
    }

    /// A copy of this key.
    pub fn duplicate(&self) -> (r: PrivateKey)
        ensures
            r@ == self@,
    {
        PrivateKey::from_valid_bytes(self.serialize())
    }
}

impl KeyPair {
    /// The private half.
    pub closed spec fn sk_spec(&self) -> Seq<u8> {
        self.sk@
    }

    /// The public half.
    pub closed spec fn pk_spec(&self) -> Seq<u8> {
        self.pk@
    }

    /// Both halves belong together: the public key is that of the private key.
    #[verifier::type_invariant]
    closed spec fn wf(self) -> bool {
        self.pk@ == public_key_spec(self.sk@)
    }

    /// The key pair of a private key.
    pub fn from_private_key(sk: PrivateKey) -> (r: KeyPair)
        ensures
            r.sk_spec() == sk@,
            r.pk_spec() == public_key_spec(sk@),
    {
        let pk = NistP256::public_key(&sk);
        KeyPair { sk, pk }
    }

    /// A fresh random key pair.
    pub fn derive_random(rng: &mut rand::rngs::StdRng) -> (r: KeyPair)
        ensures
            r.pk_spec() == public_key_spec(r.sk_spec()),
    {
        KeyPair::from_private_key(NistP256::random_sk(rng))
    }

    /// The private key.
    pub fn private(&self) -> (r: &PrivateKey)
        ensures
            r@ == self.sk_spec(),
    {
        &self.sk
    }

    /// The public key.
    pub fn public(&self) -> (r: &PublicKey)
        ensures
            r@ == self.pk_spec(),
            r@ == public_key_spec(self.sk_spec()),
    {
        proof { use_type_invariant(self); }
        &self.pk
    }
}

} // verus!
