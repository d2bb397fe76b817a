//! P-256 through the `p256` and `voprf` crates: key encodings, key
//! generation and derivation, and Diffie-Hellman.
use vstd::prelude::*;
use p256::elliptic_curve::sec1::ToEncodedPoint;
use p256::NistP256 as P256Curve;
use crate::errors::{InternalError, ProtocolError};
use crate::keypair::{pk_bytes_ok, sk_bytes_ok, PrivateKey, PublicKey};
use crate::serialization::take_array;
use super::{PK_LEN, SK_LEN, STR_OPAQUE_DERIVE_AUTH_KEY_PAIR};

verus! {

/// Whether `bytes` decode as a P-256 point other than the identity.
pub uninterp spec fn is_valid_pk(bytes: Seq<u8>) -> bool;

/// The order `n` of the P-256 group.
pub open spec fn p256_order() -> nat {
    0xffffffff00000000ffffffffffffffffbce6faada7179e84f3b9cac2fc632551nat
}

/// The value of `bytes` read as a big-endian integer.
pub open spec fn be_value(bytes: Seq<u8>) -> nat
    decreases bytes.len(),
{
    if bytes.len() == 0 {
        0
    } else {
        be_value(bytes.drop_last()) * 256 + bytes.last() as nat
    }
}

/// Whether `bytes` encode a non-zero P-256 scalar: 32 big-endian bytes of a
/// value in `1..n`.
pub open spec fn is_valid_sk(bytes: Seq<u8>) -> bool {
    bytes.len() == SK_LEN && 0 < be_value(bytes) < p256_order()
}

/// The compressed encoding of the public key of the scalar encoded by `sk`.
pub uninterp spec fn public_key_spec(sk: Seq<u8>) -> Seq<u8>;

/// The compressed encoding of the point `pk` multiplied by the scalar `sk`.
pub uninterp spec fn dh_spec(sk: Seq<u8>, pk: Seq<u8>) -> Seq<u8>;

/// The scalar that the OPRF key derivation gives for `seed` and `info`, as
/// 32 big-endian bytes, or `None` where that derivation fails.
pub uninterp spec fn derive_key_spec(seed: Seq<u8>, info: Seq<u8>) -> Option<Seq<u8>>;

/// Calls `p256::PublicKey::from_sec1_bytes`: whether the bytes decode as a
/// point other than the identity.
#[verifier::external_body]
fn p256_pk_is_valid(bytes: &[u8]) -> (r: bool)
    ensures
        r == is_valid_pk(bytes@),
{
    p256::PublicKey::from_sec1_bytes(bytes).is_ok()
}

/// Calls `p256::SecretKey::from_slice` on 32 bytes: it accepts them exactly
/// where their big-endian value lies in `1..n`.
#[verifier::external_body]
fn p256_sk_is_valid(bytes: &[u8]) -> (r: bool)
    requires
        bytes@.len() == SK_LEN,
    ensures
        r == is_valid_sk(bytes@),
{
    p256::SecretKey::from_slice(bytes).is_ok()
}

/// Calls `p256::SecretKey::random`: a fresh non-zero scalar, as 32 bytes.
/// Nothing else is claimed of it.
#[verifier::external_body]
fn p256_random_sk(rng: &mut rand::rngs::StdRng) -> (r: Vec<u8>)
    ensures
        sk_bytes_ok(r@),
{
    p256::SecretKey::random(rng).to_bytes().to_vec()
}

/// Calls `p256::SecretKey::public_key` and encodes the point compressed. The
/// encoding of a point other than the identity is 33 bytes and decodes again.
#[verifier::external_body]
fn p256_public_key(sk: &[u8]) -> (r: Vec<u8>)
    requires
        sk_bytes_ok(sk@),
    ensures
        r@ == public_key_spec(sk@),
        pk_bytes_ok(r@),
{
    match p256::SecretKey::from_slice(sk) {
        Ok(k) => k.public_key().to_encoded_point(true).as_bytes().to_vec(),
        Err(_) => Vec::new(),
    }
}

/// Multiplies the point `pk` by the scalar `sk` (`p256` arithmetic) and
/// encodes the product compressed: 33 bytes, since neither factor is trivial.
#[verifier::external_body]
fn p256_diffie_hellman(sk: &[u8], pk: &[u8]) -> (r: Vec<u8>)
    requires
        sk_bytes_ok(sk@),
        pk_bytes_ok(pk@),
    ensures
        r@ == dh_spec(sk@, pk@),
        r@.len() == PK_LEN,
{
    match (p256::SecretKey::from_slice(sk), p256::PublicKey::from_sec1_bytes(pk)) {
        (Ok(k), Ok(p)) => {
            let product = p.to_projective() * *k.to_nonzero_scalar();
            product.to_affine().to_encoded_point(true).as_bytes().to_vec()
        },
        _ => Vec::new(),
    }
}

/// Calls `voprf::derive_key::<NistP256>` in the OPRF mode. Where it succeeds
/// the scalar is non-zero (the crate retries until it is), and is given as 32
/// bytes.
#[verifier::external_body]
fn voprf_derive_key(seed: &[u8], info: &[u8]) -> (r: Option<Vec<u8>>)
    ensures
        r is Some <==> derive_key_spec(seed@, info@) is Some,
        r is Some ==> r.unwrap()@ == derive_key_spec(seed@, info@).unwrap(),
        r is Some ==> sk_bytes_ok(r.unwrap()@),
{
    match voprf::derive_key::<P256Curve>(seed, info, voprf::Mode::Oprf) {
        Ok(scalar) => Some(scalar.to_bytes().to_vec()),
        Err(_) => None,
    }
}

/// What taking a public key from the front of `input` gives: the key where the
/// next 33 bytes decode, and the input that is left.
pub open spec fn take_pk_spec(input: Seq<u8>) -> (Option<Seq<u8>>, Seq<u8>) {
    if input.len() < PK_LEN {
        (None, input)
    } else {
        let head = input.subrange(0, PK_LEN as int);
        let rest = input.subrange(PK_LEN as int, input.len() as int);
        if is_valid_pk(head) {
            (Some(head), rest)
        } else {
            (None, rest)
        }
    }
}

/// What taking a private key from the front of `input` gives.
pub open spec fn take_sk_spec(input: Seq<u8>) -> (Option<Seq<u8>>, Seq<u8>) {
    if input.len() < SK_LEN {
        (None, input)
    } else {
        let head = input.subrange(0, SK_LEN as int);
        let rest = input.subrange(SK_LEN as int, input.len() as int);
        if is_valid_sk(head) {
            (Some(head), rest)
        } else {
            (None, rest)
        }
    }
}

/// The NIST P-256 group used by the key exchange.
pub struct NistP256;

impl NistP256 {
    /// The compressed encoding of a public key.
    pub fn serialize_pk(pk: &PublicKey) -> (r: Vec<u8>)
        ensures
            r@ == pk@,
            pk_bytes_ok(r@),
    {
        pk.serialize()
    }

    /// Takes a public key from the front of `bytes`.
    ///
    /// Fails with [`ProtocolError::SerializationError`] where fewer than 33
    /// bytes are left or they do not decode as a point other than the
    /// identity.
    pub fn deserialize_take_pk(bytes: &mut &[u8]) -> (r: Result<PublicKey, ProtocolError>)
        ensures
            final(bytes)@ == take_pk_spec(old(bytes)@).1,
            r is Ok <==> take_pk_spec(old(bytes)@).0 is Some,
            r is Ok ==> r.unwrap()@ == take_pk_spec(old(bytes)@).0.unwrap(),
            r is Err ==> r == Err::<PublicKey, ProtocolError>(ProtocolError::SerializationError),
    {
        let head = take_array(bytes, PK_LEN)?;
        if p256_pk_is_valid(head.as_slice()) {
            Ok(PublicKey::from_valid_bytes(head))
        } else {
            Err(ProtocolError::SerializationError)
        }
    }

    /// A fresh random private key: any non-zero scalar, as 32 bytes.
    pub fn random_sk(rng: &mut rand::rngs::StdRng) -> (r: PrivateKey)
        ensures
            sk_bytes_ok(r@),
    {
        PrivateKey::from_valid_bytes(p256_random_sk(rng))
    }

    /// Derives a private key from `seed` by the OPRF key derivation.
    ///
    /// Fails with [`InternalError::OprfError`] where that derivation fails.
    pub fn derive_scalar(seed: &[u8]) -> (r: Result<PrivateKey, InternalError>)
        requires
            seed@.len() == SK_LEN,
        ensures
            r is Ok <==> derive_key_spec(seed@, STR_OPAQUE_DERIVE_AUTH_KEY_PAIR@) is Some,
            r is Ok ==> r.unwrap()@ == derive_key_spec(seed@, STR_OPAQUE_DERIVE_AUTH_KEY_PAIR@).unwrap(),
            r is Err ==> r == Err::<PrivateKey, InternalError>(InternalError::OprfError),
    {
        let info: [u8; 33] = STR_OPAQUE_DERIVE_AUTH_KEY_PAIR;
        match voprf_derive_key(seed, info.as_slice()) {
            Some(bytes) => Ok(PrivateKey::from_valid_bytes(bytes)),
            None => Err(InternalError::OprfError),
        }
    }

    /// The public key of a private key.
    pub fn public_key(sk: &PrivateKey) -> (r: PublicKey)
        ensures
            r@ == public_key_spec(sk@),
    {
        PublicKey::from_valid_bytes(p256_public_key(sk.as_bytes()))
    }

    /// The encoding of a private key.
    pub fn serialize_sk(sk: &PrivateKey) -> (r: Vec<u8>)
        ensures
            r@ == sk@,
            sk_bytes_ok(r@),
    {
        sk.serialize()
    }

    /// Takes a private key from the front of `bytes`.
    ///
    /// Fails with [`ProtocolError::SerializationError`] where fewer than 32
    /// bytes are left or they do not decode as a non-zero scalar.
    pub fn deserialize_take_sk(bytes: &mut &[u8]) -> (r: Result<PrivateKey, ProtocolError>)
        ensures
            final(bytes)@ == take_sk_spec(old(bytes)@).1,
            r is Ok <==> take_sk_spec(old(bytes)@).0 is Some,
            r is Ok ==> r.unwrap()@ == take_sk_spec(old(bytes)@).0.unwrap(),
            r is Err ==> r == Err::<PrivateKey, ProtocolError>(ProtocolError::SerializationError),
    {
        let head = take_array(bytes, SK_LEN)?;
        if p256_sk_is_valid(head.as_slice()) {
            Ok(PrivateKey::from_valid_bytes(head))
        } else {
            Err(ProtocolError::SerializationError)
        }
    }

    /// The Diffie-Hellman shared secret of a private and a public key: the
    /// compressed encoding of their product.
    pub fn diffie_hellman(sk: &PrivateKey, pk: &PublicKey) -> (r: Vec<u8>)
        ensures
            r@ == dh_spec(sk@, pk@),
            r@.len() == PK_LEN,
    {
        p256_diffie_hellman(sk.as_bytes(), pk.as_bytes())
    }
}

impl PrivateKey {
    /// The Diffie-Hellman shared secret of this key and `pk`.
    pub fn ke_diffie_hellman(&self, pk: &PublicKey) -> (r: Vec<u8>)
        ensures
            r@ == dh_spec(self@, pk@),
            r@.len() == PK_LEN,
    {
        NistP256::diffie_hellman(self, pk)
    }
}

/// A public key read back from its encoding, with anything after it, is the
/// same key, and what came after is left.
pub proof fn lemma_take_pk_roundtrip(pk: Seq<u8>, rest: Seq<u8>)
    requires
        pk_bytes_ok(pk),
    ensures
        take_pk_spec(pk + rest) == (Some(pk), rest),
{
    assert((pk + rest).subrange(0, PK_LEN as int) =~= pk);
    assert((pk + rest).subrange(PK_LEN as int, (pk + rest).len() as int) =~= rest);
}

/// A private key read back from its encoding, with anything after it, is the
/// same key, and what came after is left.
pub proof fn lemma_take_sk_roundtrip(sk: Seq<u8>, rest: Seq<u8>)
    requires
        sk_bytes_ok(sk),
    ensures
        take_sk_spec(sk + rest) == (Some(sk), rest),
{
    assert((sk + rest).subrange(0, SK_LEN as int) =~= sk);
    assert((sk + rest).subrange(SK_LEN as int, (sk + rest).len() as int) =~= rest);
}

} // verus!
