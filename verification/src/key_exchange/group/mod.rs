//! The group of the key exchange: NIST P-256.
pub mod elliptic_curve;

use vstd::prelude::*;

verus! {

/// Length of a compressed SEC1 public key.
pub const PK_LEN: usize = 33;

/// Length of a serialized private key (a scalar).
pub const SK_LEN: usize = 32;

/// The info string under which a private key is derived from a seed:
/// `"OPAQUE-DeriveDiffieHellmanKeyPair"`.
pub const STR_OPAQUE_DERIVE_AUTH_KEY_PAIR: [u8; 33] = [
    0x4f, 0x50, 0x41, 0x51, 0x55, 0x45, 0x2d, 0x44, 0x65, 0x72, 0x69, 0x76,
    0x65, 0x44, 0x69, 0x66, 0x66, 0x69, 0x65, 0x48, 0x65, 0x6c, 0x6c, 0x6d,
    0x61, 0x6e, 0x4b, 0x65, 0x79, 0x50, 0x61, 0x69, 0x72,
];

} // verus!
