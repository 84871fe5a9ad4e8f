use vstd::prelude::*;

verus! {

/// Every failure the service reports to its caller.
///
/// `DecryptionFailed` deliberately carries no detail: a failed decryption
/// never reveals whether the key, the nonce, the tag or the bound context
/// did not match.
#[derive(Debug, Clone, Copy, PartialEq, Eq, Structural)]
pub enum SecurityError {
    /// The referenced key identifier is not (or no longer) in the key ring.
    KeyNotFound,
    /// No key has been generated yet.
    KeyRingEmpty,
    /// The nonce is not valid text encoding of a 96-bit value.
    InvalidNonce,
    /// The recovered plaintext is not well-formed text.
    InvalidEncoding,
    /// Authentication of the ciphertext failed.
    DecryptionFailed,
    /// The long-lived key material given at start-up is unusable.
    CryptoInitError,
    /// The system entropy source failed.
    EntropyFailure,
    /// The salt is not acceptable to the password hash.
    InvalidSalt,
    /// A stored password hash could not be parsed.
    InvalidHashFormat,
    /// A cryptographic primitive failed on inputs it should accept.
    CryptoError,
}

} // verus!
