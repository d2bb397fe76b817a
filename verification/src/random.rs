//! The random source that the protocol steps draw nonces and keys from.
use vstd::prelude::*;
use rand::RngCore;

verus! {

/// The random number generator of the `rand` crate, carried through the
/// protocol steps; its state is opaque.
#[verifier::external_type_specification]
#[verifier::external_body]
pub struct ExStdRng(rand::rngs::StdRng);

/// Calls `rand::RngCore::fill_bytes` on a fresh buffer of `n` bytes. Nothing
/// is claimed of the bytes but their number.
#[verifier::external_body]
pub(crate) fn random_bytes(rng: &mut rand::rngs::StdRng, n: usize) -> (r: Vec<u8>)
    ensures
        r@.len() == n,
{
    let mut buf = vec![0u8; n];
    rng.fill_bytes(&mut buf);
    buf
}

} // verus!
