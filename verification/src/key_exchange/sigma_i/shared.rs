//! The verification state of signature protocols that pre-hash.
use vstd::prelude::*;
use crate::errors::ProtocolError;
use crate::hash::HASH_LEN;
use crate::serialization::{copy_bytes, take_array, take_spec};

verus! {

/// Pre-hash of the message to be verified.
#[derive(Debug, PartialEq, Eq)]
pub struct PreHash(Vec<u8>);

impl View for PreHash {
    type V = Seq<u8>;

    closed spec fn view(&self) -> Seq<u8> {
        self.0@
    }
}

impl PreHash {
    #[verifier::type_invariant]
    closed spec fn wf(self) -> bool {
        self.0@.len() == HASH_LEN
    }

    /// The pre-hash `bytes`, of a hash's length.
    pub fn new(bytes: Vec<u8>) -> (r: PreHash)
        requires
            bytes@.len() == HASH_LEN,
        ensures
            r@ == bytes@,
    {
        PreHash(bytes)
    }

    /// The pre-hash's bytes.
    pub fn as_bytes(&self) -> (r: &[u8])
        ensures
            r@ == self@,
            r@.len() == HASH_LEN,
    {
        proof { use_type_invariant(self); }
        self.0.as_slice()
    }

    /// A copy of this pre-hash.
    pub fn duplicate(&self) -> (r: PreHash)
        ensures
            r@ == self@,
    {
        PreHash(copy_bytes(self.as_bytes()))
    }

    /// The bytes of this pre-hash.
    pub fn serialize(&self) -> (r: Vec<u8>)
        ensures
            r@ == self@,
            r@.len() == HASH_LEN,
            forall|rest: Seq<u8>| #[trigger] take_spec(r@ + rest, HASH_LEN as nat) == (Some(self@), rest),
    {
        let r = copy_bytes(self.as_bytes());
        proof {
            assert forall|rest: Seq<u8>| #[trigger] take_spec(r@ + rest, HASH_LEN as nat) == (Some(self@), rest) by {
                assert((r@ + rest).subrange(0, HASH_LEN as int) =~= r@);
                assert((r@ + rest).subrange(HASH_LEN as int, (r@ + rest).len() as int) =~= rest);
            }
        }
        r
    }

    /// Takes a pre-hash from the front of `input`.
    ///
    /// Fails with [`ProtocolError::SerializationError`] where the input is too
    /// short.
    pub fn deserialize_take(input: &mut &[u8]) -> (r: Result<PreHash, ProtocolError>)
        ensures
            final(input)@ == take_spec(old(input)@, HASH_LEN as nat).1,
            r is Ok <==> take_spec(old(input)@, HASH_LEN as nat).0 is Some,
            r is Ok ==> r.unwrap()@ == take_spec(old(input)@, HASH_LEN as nat).0.unwrap(),
            r is Err ==> r == Err::<PreHash, ProtocolError>(ProtocolError::SerializationError),
    {
        let bytes = take_array(input, HASH_LEN)?;
        Ok(PreHash(bytes))
    }
}

} // verus!
