//! A cryptographic envelope service: a rotating ring of symmetric keys,
//! authenticated encryption bound to an optional context, content hashing and
//! timestamp-bound message signatures.

mod compare;
mod crypto;
mod error;
mod keyring;
mod primitives;
mod timestamp;

pub use compare::{constant_time_eq, starts_with_argon2_marker, text_eq};
pub use crypto::{
    CryptoService, DecryptionRequest, EncryptionRequest, EncryptionResponse, HashRequest,
    HashResponse, SignatureRequest, SignatureResponse,
};
pub use error::SecurityError;
pub use keyring::{KeyEntry, KeyRing, KEY_LEN, RETENTION_LIMIT};
pub use timestamp::{is_fresh, Timestamp, FRESHNESS_WINDOW_SECS, MAX_RENDERABLE_SECS, NANOS_PER_SEC};
