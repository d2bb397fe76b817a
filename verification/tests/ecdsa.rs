use opaque_ke::key_exchange::group::elliptic_curve::NistP256;
use opaque_ke::key_exchange::sigma_i::ecdsa::{sign_with_ad, verify, Ecdsa};
use p256::ecdsa::signature::hazmat::PrehashVerifier;
use p256::ecdsa::signature::RandomizedDigestSigner;
use p256::ecdsa::{Signature, SigningKey, VerifyingKey};
use rand::rngs::StdRng;
use rand::{RngCore, SeedableRng};
use sha2::{Digest, Sha256};

/// A random source that repeats the bytes it was given.
struct CycleRng {
    bytes: Vec<u8>,
    pos: usize,
}

impl CycleRng {
    fn new(bytes: Vec<u8>) -> Self {
        CycleRng { bytes, pos: 0 }
    }
}

impl RngCore for CycleRng {
    fn next_u32(&mut self) -> u32 {
        let mut b = [0u8; 4];
        self.fill_bytes(&mut b);
        u32::from_le_bytes(b)
    }

    fn next_u64(&mut self) -> u64 {
        let mut b = [0u8; 8];
        self.fill_bytes(&mut b);
        u64::from_le_bytes(b)
    }

    fn fill_bytes(&mut self, dest: &mut [u8]) {
        for d in dest.iter_mut() {
            *d = self.bytes[self.pos % self.bytes.len()];
            self.pos += 1;
        }
    }

    fn try_fill_bytes(&mut self, dest: &mut [u8]) -> Result<(), rand_core::Error> {
        self.fill_bytes(dest);
        Ok(())
    }
}

impl rand_core::CryptoRng for CycleRng {}

#[test]
fn ecdsa() {
    let mut rng = CycleRng::new(vec![1; 32]);

    let mut message = [0; 1024];
    rand::rngs::OsRng.fill_bytes(&mut message);
    let hash = Sha256::new_with_prefix(message);

    let sk = NistP256::random_sk(&mut StdRng::from_entropy());
    let signing_key = SigningKey::from(p256::SecretKey::from_slice(&sk.serialize()).unwrap());

    let signature: Signature = signing_key.sign_digest_with_rng(&mut rng, hash.clone());
    let mut ad = [0u8; 32];
    CycleRng::new(vec![1; 32]).fill_bytes(&mut ad);
    let custom_signature = sign_with_ad(&sk, &ad, &hash.clone().finalize()).unwrap();

    assert_eq!(signature.to_bytes().to_vec(), Ecdsa::serialize_signature(&custom_signature));

    let pk = NistP256::public_key(&sk);
    let verifying_key = VerifyingKey::from_sec1_bytes(&pk.serialize()).unwrap();

    verifying_key
        .verify_prehash(&hash.clone().finalize(), &signature)
        .unwrap();
    verify(&pk, &hash.finalize(), &custom_signature).unwrap();
}
