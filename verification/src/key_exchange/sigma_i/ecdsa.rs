//! ECDSA over P-256 with SHA-256, the signature protocol of SIGMA-I.
//!
//! The "verification state" is the pre-hash of the message to be verified.
use vstd::prelude::*;
use ecdsa::hazmat::SignPrimitive;
use p256::NistP256 as P256Curve;
use sha2::Sha256;
use crate::errors::{InternalError, ProtocolError};
use crate::hash::sha256_spec;
use crate::keypair::{pk_bytes_ok, sk_bytes_ok, PrivateKey, PublicKey};
use crate::key_exchange::group::elliptic_curve::is_valid_sk;
use crate::key_exchange::group::SK_LEN;
use crate::random::random_bytes;
use crate::serialization::{copy_bytes, take_array, take_spec};
use super::message::{Message, MessageBuilder};
use super::shared::PreHash;

verus! {

/// Length of a serialized signature: the scalars `r` and `s`.
pub const SIG_LEN: usize = 64;

/// Length of the additional randomness that goes into a signature.
pub const AD_LEN: usize = 32;

/// Whether `bytes` encode an ECDSA P-256 signature: 64 bytes, `r` then `s`,
/// each a big-endian value in `1..n`.
pub open spec fn is_valid_signature(bytes: Seq<u8>) -> bool {
    &&& bytes.len() == SIG_LEN
    &&& is_valid_sk(bytes.subrange(0, SK_LEN as int))
    &&& is_valid_sk(bytes.subrange(SK_LEN as int, SIG_LEN as int))
}

/// The ECDSA P-256 signature of the pre-hash `prehash` by the private key
/// `sk`, with its nonce derived deterministically from the key, the pre-hash
/// and the additional data `ad`; `None` where signing fails.
pub uninterp spec fn ecdsa_sign_spec(sk: Seq<u8>, prehash: Seq<u8>, ad: Seq<u8>) -> Option<Seq<u8>>;

/// Whether `sig` is a valid ECDSA P-256 signature of the pre-hash `prehash`
/// under the public key `pk`.
pub uninterp spec fn ecdsa_verify_spec(pk: Seq<u8>, prehash: Seq<u8>, sig: Seq<u8>) -> bool;

/// Calls `p256::ecdsa::Signature::from_slice`: it accepts exactly 64 bytes
/// whose halves `r` and `s` are big-endian values in `1..n`.
#[verifier::external_body]
fn p256_signature_is_valid(bytes: &[u8]) -> (r: bool)
    ensures
        r == is_valid_signature(bytes@),
{
    p256::ecdsa::Signature::from_slice(bytes).is_ok()
}

/// Calls `ecdsa::hazmat::bits2field` on the pre-hash and
/// `SignPrimitive::try_sign_prehashed_rfc6979::<Sha256>` on the key's
/// scalar. A signature that comes out has `r` and `s` in `1..n` (the crate's
/// `Signature::from_scalars` checks), so its 64 bytes decode again.
#[verifier::external_body]
fn p256_ecdsa_sign(sk: &[u8], prehash: &[u8], ad: &[u8]) -> (r: Option<Vec<u8>>)
    requires
        sk_bytes_ok(sk@),
    ensures
        r is Some <==> ecdsa_sign_spec(sk@, prehash@, ad@) is Some,
        r is Some ==> r.unwrap()@ == ecdsa_sign_spec(sk@, prehash@, ad@).unwrap(),
        r is Some ==> r.unwrap()@.len() == SIG_LEN && is_valid_signature(r.unwrap()@),
{
    let key = match p256::SecretKey::from_slice(sk) {
        Ok(k) => k,
        Err(_) => return None,
    };
    let z = match ecdsa::hazmat::bits2field::<P256Curve>(prehash) {
        Ok(z) => z,
        Err(_) => return None,
    };
    match (*key.to_nonzero_scalar()).try_sign_prehashed_rfc6979::<Sha256>(&z, ad) {
        Ok((sig, _)) => Some(sig.to_bytes().to_vec()),
        Err(_) => None,
    }
}

/// Calls `ecdsa::hazmat::bits2field` on the pre-hash and
/// `ecdsa::hazmat::verify_prehashed` with the decoded key and signature.
#[verifier::external_body]
fn p256_ecdsa_verify(pk: &[u8], prehash: &[u8], sig: &[u8]) -> (r: bool)
    requires
        pk_bytes_ok(pk@),
        is_valid_signature(sig@),
    ensures
        r == ecdsa_verify_spec(pk@, prehash@, sig@),
{
    match (
        p256::PublicKey::from_sec1_bytes(pk),
        p256::ecdsa::Signature::from_slice(sig),
        ecdsa::hazmat::bits2field::<P256Curve>(prehash),
    ) {
        (Ok(p), Ok(s), Ok(z)) => ecdsa::hazmat::verify_prehashed(&p.to_projective(), &z, &s).is_ok(),
        _ => false,
    }
}

/// An ECDSA P-256 signature, held as its 64 bytes.
#[derive(Debug, PartialEq, Eq)]
pub struct Signature {
    bytes: Vec<u8>,
}

impl View for Signature {
    type V = Seq<u8>;

    closed spec fn view(&self) -> Seq<u8> {
        self.bytes@
    }
}

/// A valid signature encoding.
pub open spec fn sig_bytes_ok(s: Seq<u8>) -> bool {
    s.len() == SIG_LEN && is_valid_signature(s)
}

impl Signature {
    #[verifier::type_invariant]
    closed spec fn wf(self) -> bool {
        sig_bytes_ok(self.bytes@)
    }

    /// The signature's bytes.
    pub fn as_bytes(&self) -> (r: &[u8])
        ensures
            r@ == self@,
            sig_bytes_ok(r@),
    {
        proof { use_type_invariant(self); }
        self.bytes.as_slice()
    }

    /// A copy of this signature.
    pub fn duplicate(&self) -> (r: Signature)
        ensures
            r@ == self@,
    {
        Signature { bytes: copy_bytes(self.as_bytes()) }
    }
}

/// What taking a signature from the front of `input` gives.
pub open spec fn take_signature_spec(input: Seq<u8>) -> (Option<Seq<u8>>, Seq<u8>) {
    let (head, rest) = take_spec(input, SIG_LEN as nat);
    match head {
        Some(head) => if is_valid_signature(head) {
            (Some(head), rest)
        } else {
            (None, rest)
        },
        None => (None, rest),
    }
}

/// The signature of a pre-hash with the given additional randomness.
///
/// Fails with [`InternalError::SignatureError`] where the signing primitive
/// fails.
pub fn sign_with_ad(sk: &PrivateKey, ad: &[u8], pre_hash: &[u8]) -> (r: Result<Signature, ProtocolError>)
    ensures
        r is Ok <==> ecdsa_sign_spec(sk@, pre_hash@, ad@) is Some,
        r is Ok ==> r.unwrap()@ == ecdsa_sign_spec(sk@, pre_hash@, ad@).unwrap(),
        r is Err ==> r == Err::<Signature, ProtocolError>(ProtocolError::LibraryError(InternalError::SignatureError)),
{
    match p256_ecdsa_sign(sk.as_bytes(), pre_hash, ad) {
        Some(bytes) => Ok(Signature { bytes }),
        None => Err(ProtocolError::LibraryError(InternalError::SignatureError)),
    }
}

/// The signature of a pre-hash, with fresh additional randomness.
///
/// Fails with [`InternalError::SignatureError`] where the signing primitive
/// fails.
pub fn sign(sk: &PrivateKey, rng: &mut rand::rngs::StdRng, pre_hash: &[u8]) -> (r: Result<Signature, ProtocolError>)
    ensures
        exists|ad: Seq<u8>|
            {
                let signed = #[trigger] ecdsa_sign_spec(sk@, pre_hash@, ad);
                &&& ad.len() == AD_LEN
                &&& r is Ok <==> signed is Some
                &&& r is Ok ==> r.unwrap()@ == signed.unwrap()
            },
        r is Err ==> r == Err::<Signature, ProtocolError>(ProtocolError::LibraryError(InternalError::SignatureError)),
{
    let ad = random_bytes(rng, AD_LEN);
    sign_with_ad(sk, ad.as_slice(), pre_hash)
}

/// Checks a signature of a pre-hash.
///
/// Fails with [`ProtocolError::InvalidLoginError`] where it does not verify.
pub fn verify(pk: &PublicKey, pre_hash: &[u8], signature: &Signature) -> (r: Result<(), ProtocolError>)
    ensures
        r is Ok <==> ecdsa_verify_spec(pk@, pre_hash@, signature@),
        r is Err ==> r == Err::<(), ProtocolError>(ProtocolError::InvalidLoginError),
{
    if p256_ecdsa_verify(pk.as_bytes(), pre_hash, signature.as_bytes()) {
        Ok(())
    } else {
        Err(ProtocolError::InvalidLoginError)
    }
}

/// ECDSA for SIGMA-I.
pub struct Ecdsa;

impl Ecdsa {
    /// Signs the party's own message with the given additional randomness,
    /// and keeps the pre-hash of the message it will verify.
    ///
    /// Fails with [`InternalError::SignatureError`] where the signing
    /// primitive fails.
    pub fn sign_with(sk: &PrivateKey, ad: &[u8], message: &Message) -> (r: Result<(Signature, PreHash), ProtocolError>)
        ensures
            ({
                let signed = ecdsa_sign_spec(sk@, sha256_spec(message.sign_message_spec()), ad@);
                &&& r is Ok <==> signed is Some
                &&& r is Ok ==> r.unwrap().0@ == signed.unwrap()
                &&& r is Ok ==> r.unwrap().1@ == sha256_spec(message.verify_message_spec())
                &&& r is Err ==> r == Err::<(Signature, PreHash), ProtocolError>(
                    ProtocolError::LibraryError(InternalError::SignatureError),
                )
            }),
    {
        let hash = message.hash();
        let signature = sign_with_ad(sk, ad, hash.sign.as_slice())?;
        Ok((signature, PreHash::new(hash.verify)))
    }

    /// Signs the party's own message with fresh additional randomness, and
    /// keeps the pre-hash of the message it will verify.
    ///
    /// Fails with [`InternalError::SignatureError`] where the signing
    /// primitive fails.
    pub fn sign(sk: &PrivateKey, rng: &mut rand::rngs::StdRng, message: &Message) -> (r: Result<(Signature, PreHash), ProtocolError>)
        ensures
            exists|ad: Seq<u8>|
                {
                    let signed = #[trigger] ecdsa_sign_spec(sk@, sha256_spec(message.sign_message_spec()), ad);
                    &&& ad.len() == AD_LEN
                    &&& r is Ok <==> signed is Some
                    &&& r is Ok ==> r.unwrap().0@ == signed.unwrap()
                },
            r is Ok ==> r.unwrap().1@ == sha256_spec(message.verify_message_spec()),
            r is Err ==> r == Err::<(Signature, PreHash), ProtocolError>(
                ProtocolError::LibraryError(InternalError::SignatureError),
            ),
    {
        let ad = random_bytes(rng, AD_LEN);
        Ecdsa::sign_with(sk, ad.as_slice(), message)
    }

    /// Checks the peer's signature against the pre-hash kept when signing;
    /// the message builder is not needed since the pre-hash stands for it.
    ///
    /// Fails with [`ProtocolError::InvalidLoginError`] where it does not
    /// verify.
    pub fn verify(pk: &PublicKey, _message_builder: MessageBuilder, state: PreHash, signature: &Signature) -> (r:
        Result<(), ProtocolError>)
        ensures
            r is Ok <==> ecdsa_verify_spec(pk@, state@, signature@),
            r is Err ==> r == Err::<(), ProtocolError>(ProtocolError::InvalidLoginError),
    {
        verify(pk, state.as_bytes(), signature)
    }

    /// The 64 bytes of a signature.
    pub fn serialize_signature(signature: &Signature) -> (r: Vec<u8>)
        ensures
            r@ == signature@,
            sig_bytes_ok(r@),
            forall|rest: Seq<u8>| #[trigger] take_signature_spec(r@ + rest) == (Some(signature@), rest),
    {
        let r = copy_bytes(signature.as_bytes());
        proof {
            assert forall|rest: Seq<u8>| #[trigger] take_signature_spec(r@ + rest) == (Some(signature@), rest) by {
                lemma_take_signature_roundtrip(signature@, rest);
            }
        }
        r
    }

    /// Takes a signature from the front of `bytes`.
    ///
    /// Fails with [`ProtocolError::SerializationError`] where fewer than 64
    /// bytes are left or they do not decode as a signature.
    pub fn deserialize_take_signature(bytes: &mut &[u8]) -> (r: Result<Signature, ProtocolError>)
        ensures
            final(bytes)@ == take_signature_spec(old(bytes)@).1,
            r is Ok <==> take_signature_spec(old(bytes)@).0 is Some,
            r is Ok ==> r.unwrap()@ == take_signature_spec(old(bytes)@).0.unwrap(),
            r is Err ==> r == Err::<Signature, ProtocolError>(ProtocolError::SerializationError),
    {
        let head = take_array(bytes, SIG_LEN)?;
        if p256_signature_is_valid(head.as_slice()) {
            Ok(Signature { bytes: head })
        } else {
            Err(ProtocolError::SerializationError)
        }
    }
}

/// A signature read back from its bytes, with anything after them, is the
/// same signature, and what came after is left.
pub proof fn lemma_take_signature_roundtrip(sig: Seq<u8>, rest: Seq<u8>)
    requires
        sig_bytes_ok(sig),
    ensures
        take_signature_spec(sig + rest) == (Some(sig), rest),
{
    assert((sig + rest).subrange(0, SIG_LEN as int) =~= sig);
    assert((sig + rest).subrange(SIG_LEN as int, (sig + rest).len() as int) =~= rest);
}

} // verus!
