//! Errors produced by the key exchange and its serialization.
use vstd::prelude::*;

verus! {

/// Failures of the underlying primitives.
#[derive(Clone, Copy, Debug, PartialEq, Eq)]
pub enum InternalError {
    /// HMAC could not be keyed.
    HmacError,
    /// HKDF could not be set up or expanded.
    HkdfError,
    /// The OPRF key derivation failed.
    OprfError,
    /// Producing an ECDSA signature failed.
    SignatureError,
}

/// Errors that a protocol step reports to its caller.
#[derive(Clone, Copy, Debug, PartialEq, Eq)]
pub enum ProtocolError {
    /// An underlying primitive failed.
    LibraryError(InternalError),
    /// The peer's message did not authenticate.
    InvalidLoginError,
    /// Bytes could not be read as the expected value.
    SerializationError,
}

} // verus!
