//! SHA-256, HMAC-SHA-256 and HKDF-SHA-256, the hash primitives of the key
//! exchange, together with a constant-time comparison of byte strings.
//!
//! SHA-256 itself is named, not restated: the name stands for the output of
//! the `sha2` crate. HMAC and HKDF are stated over it.
use vstd::prelude::*;
use sha2::{Digest, Sha256};
use hmac::{Mac, SimpleHmac};
use hkdf::Hkdf;
use subtle::ConstantTimeEq;

verus! {

/// Length in bytes of a SHA-256 output.
pub const HASH_LEN: usize = 32;

/// The SHA-256 digest of a byte string.
pub uninterp spec fn sha256_spec(data: Seq<u8>) -> Seq<u8>;

/// Length in bytes of a SHA-256 input block.
pub const BLOCK_LEN: usize = 64;

/// The key block of HMAC: the key (its hash where it is longer than a block),
/// padded with zeros to a block.
pub open spec fn hmac_key_block(key: Seq<u8>) -> Seq<u8> {
    let k = if key.len() > BLOCK_LEN {
        sha256_spec(key)
    } else {
        key
    };
    k + Seq::new((BLOCK_LEN - k.len()) as nat, |i: int| 0u8)
}

/// Every byte of `block` exclusive-or'd with `pad`.
pub open spec fn xor_pad(block: Seq<u8>, pad: u8) -> Seq<u8> {
    Seq::new(block.len(), |i: int| block[i] ^ pad)
}

/// The HMAC-SHA-256 tag of `msg` under `key`: the hash of the key block
/// masked with `0x5c`, followed by the hash of the key block masked with
/// `0x36` and the message.
pub open spec fn hmac_spec(key: Seq<u8>, msg: Seq<u8>) -> Seq<u8> {
    let block = hmac_key_block(key);
    sha256_spec(xor_pad(block, 0x5cu8) + sha256_spec(xor_pad(block, 0x36u8) + msg))
}

/// HKDF-Extract with SHA-256 and an empty salt: the HMAC of `ikm` under 32
/// zero bytes.
pub open spec fn hkdf_extract_spec(ikm: Seq<u8>) -> Seq<u8> {
    hmac_spec(Seq::new(HASH_LEN as nat, |i: int| 0u8), ikm)
}

/// The first 32 bytes of HKDF-Expand with SHA-256: the HMAC of `info`
/// followed by the block counter 1, under `prk`.
pub open spec fn hkdf_expand_spec(prk: Seq<u8>, info: Seq<u8>) -> Seq<u8> {
    hmac_spec(prk, info + seq![1u8])
}

/// Calls `sha2::Sha256::digest`: the result is the digest of `data`, 32 bytes
/// long.
#[verifier::external_body]
pub(crate) fn sha256(data: &[u8]) -> (r: Vec<u8>)
    ensures
        r@ == sha256_spec(data@),
        r@.len() == HASH_LEN,
{
    Sha256::digest(data).to_vec()
}

/// Calls `hmac::SimpleHmac::<Sha256>::new_from_slice`, `update` and
/// `finalize`: the tag is the HMAC of `msg` under `key` as stated by
/// [`hmac_spec`]. Keying accepts keys of every length (the crate's
/// `new_from_slice` has no error path), so the result is always `Some` of the
/// 32-byte tag.
#[verifier::external_body]
pub(crate) fn hmac_sha256(key: &[u8], msg: &[u8]) -> (r: Option<Vec<u8>>)
    ensures
        r is Some,
        r.unwrap()@ == hmac_spec(key@, msg@),
        r.unwrap()@.len() == HASH_LEN,
{
    match <SimpleHmac<Sha256> as Mac>::new_from_slice(key) {
        Ok(mut mac) => {
            mac.update(msg);
            Some(mac.finalize().into_bytes().to_vec())
        },
        Err(_) => None,
    }
}

/// Calls `hkdf::Hkdf::<Sha256>::extract` with no salt: the crate keys HMAC
/// with a zero salt of the hash's length, so the result is the 32-byte HMAC
/// of `ikm` under 32 zero bytes.
#[verifier::external_body]
pub(crate) fn hkdf_extract(ikm: &[u8]) -> (r: Vec<u8>)
    ensures
        r@ == hkdf_extract_spec(ikm@),
        r@.len() == HASH_LEN,
{
    Hkdf::<Sha256>::extract(None, ikm).0.to_vec()
}

/// Calls `hkdf::Hkdf::<Sha256>::from_prk` and `expand` into 32 bytes.
/// `from_prk` refuses keys shorter than 32 bytes; expanding 32 bytes never
/// fails, and fills its one block with the HMAC of `info` and the counter
/// byte 1 under `prk`.
#[verifier::external_body]
pub(crate) fn hkdf_expand(prk: &[u8], info: &[u8]) -> (r: Option<Vec<u8>>)
    ensures
        r is Some <==> prk@.len() >= HASH_LEN,
        r is Some ==> r.unwrap()@ == hkdf_expand_spec(prk@, info@),
        r is Some ==> r.unwrap()@.len() == HASH_LEN,
{
    match Hkdf::<Sha256>::from_prk(prk) {
        Ok(hkdf) => {
            let mut okm = [0u8; 32];
            match hkdf.expand(info, &mut okm) {
                Ok(()) => Some(okm.to_vec()),
                Err(_) => None,
            }
        },
        Err(_) => None,
    }
}

/// Calls `subtle::ConstantTimeEq::ct_eq` on two byte slices: true exactly
/// when they have the same length and the same bytes.
#[verifier::external_body]
pub(crate) fn ct_eq(a: &[u8], b: &[u8]) -> (r: bool)
    ensures
        r == (a@ == b@),
{
    bool::from(a.ct_eq(b))
}

} // verus!
