//! Everything that can abort a SCRAM-SHA-1 conversation.

use vstd::prelude::*;

verus! {

/// Why a server reply is treated as adversarial rather than merely malformed.
#[derive(Clone, Copy, Debug, PartialEq, Eq, Structural)]
pub enum MaliciousServerErrorType {
    /// The server's nonce does not extend the client's nonce.
    InvalidRnonce,
    /// The server's final payload offers no signature at all.
    NoServerSignature,
    /// The server's signature does not match the one computed locally.
    InvalidServerSignature,
}

/// An error that ends the handshake; nothing here is retried.
#[derive(Clone, Copy, Debug, PartialEq, Eq, Structural)]
pub enum AuthError {
    /// Generating the local random nonce failed.
    LocalGenerationError,
    /// A server reply is missing an expected field, is not valid UTF-8, is
    /// not valid base64, or breaks the fixed textual layout.
    ResponseFormatError,
    /// The server failed an identity check; callers should treat this as a
    /// non-retryable security failure.
    MaliciousServerError(MaliciousServerErrorType),
    /// A defensive check on derived key lengths failed; unreachable when the
    /// cryptographic primitives behave as specified.
    InternalConsistencyError,
}

} // verus!
