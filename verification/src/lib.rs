//! The key exchanges of the OPAQUE login step, over P-256 with SHA-256.

pub mod errors;
pub mod hash;
pub mod keypair;
pub mod random;
pub mod serialization;
pub mod key_exchange;
