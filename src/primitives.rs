//! The cryptographic and encoding primitives that the service is built on,
//! each a thin call into an established implementation.

use vstd::prelude::*;
use vstd::utf8::{decode_utf8, valid_utf8};
use crate::timestamp::Timestamp;
use argon2::{PasswordHasher, PasswordVerifier};
use base64::Engine;
use ring::rand::SecureRandom;
use std::collections::BTreeMap;

verus! {

#[verifier::external_type_specification]
#[verifier::external_body]
pub struct ExUnspecified(ring::error::Unspecified);

#[verifier::external_type_specification]
#[verifier::external_body]
pub struct ExDecodeError(base64::DecodeError);

#[verifier::external_type_specification]
#[verifier::external_body]
pub struct ExJsonError(serde_json::Error);

#[verifier::external_type_specification]
#[verifier::external_body]
pub struct ExPasswordHashError(argon2::password_hash::Error);

/// The SHA-256 digest of `data`.
pub uninterp spec fn sha256_digest(data: Seq<u8>) -> Seq<u8>;

/// The standard, padded base64 text of `bytes`.
pub uninterp spec fn base64_text(bytes: Seq<u8>) -> Seq<char>;

/// AES-256-GCM ciphertext of `plaintext` followed by its 16-byte tag.
pub uninterp spec fn aes256_gcm_sealed(
    key: Seq<u8>,
    nonce: Seq<u8>,
    aad: Seq<u8>,
    plaintext: Seq<u8>,
) -> Seq<u8>;

/// The longest plaintext, in bytes, that AES-GCM seals in one message.
pub open spec fn aes_gcm_max_input() -> nat {
    68_719_476_704
}

/// The HMAC-SHA-256 tag of `message` under `key`.
pub uninterp spec fn hmac_sha256_tag(key: Seq<u8>, message: Seq<u8>) -> Seq<u8>;

/// The PHC string of the default Argon2id hash of `password` with `salt`.
pub uninterp spec fn argon2_phc(password: Seq<u8>, salt: Seq<char>) -> Seq<char>;

/// The default Argon2 hash accepts `salt`: `SaltString::from_b64` takes it
/// and it decodes to at least the minimum salt length.
pub uninterp spec fn argon2_salt_ok(salt: Seq<char>) -> bool;

/// `PasswordHash::new` parses `phc` as a PHC string.
pub uninterp spec fn phc_parses(phc: Seq<char>) -> bool;

/// The default Argon2 verifier accepts `password` against the PHC string `phc`.
pub uninterp spec fn argon2_verifies(password: Seq<u8>, phc: Seq<char>) -> bool;

/// The RFC 3339 rendering of the UTC instant `secs` seconds and `nanos`
/// nanoseconds after the epoch, if chrono can represent that instant.
pub uninterp spec fn rfc3339_text(secs: int, nanos: int) -> Option<Seq<char>>;

/// The JSON object text of a string-to-string map, keys in ascending order.
pub uninterp spec fn canonical_json(ctx: Map<Seq<char>, Seq<char>>) -> Seq<char>;

/// The marker that every Argon2 PHC string starts with.
pub open spec fn argon2_marker() -> Seq<char> {
    seq!['$', 'a', 'r', 'g', 'o', 'n', '2']
}

pub open spec fn has_argon2_marker(s: Seq<char>) -> bool {
    s.len() >= argon2_marker().len() && s.subrange(0, argon2_marker().len() as int)
        == argon2_marker()
}

/// The lower-case hexadecimal digit for `d < 16`.
pub open spec fn hex_digit(d: u8) -> char {
    if d < 10 {
        (('0' as u8) + d) as char
    } else {
        (('a' as u8) + d - 10) as char
    }
}

/// Lower-case hexadecimal text of `bytes`, two digits per byte, high nibble first.
pub open spec fn hex_lower(bytes: Seq<u8>) -> Seq<char>
    decreases bytes.len(),
{
    if bytes.len() == 0 {
        Seq::empty()
    } else {
        hex_lower(bytes.drop_last()) + seq![
            hex_digit(bytes.last() / 16),
            hex_digit(bytes.last() % 16),
        ]
    }
}

/// Relies on ring's `SystemRandom::fill`: `len` bytes from the operating
/// system's secure random source, or its failure.
#[verifier::external_body]
pub(crate) fn random_bytes(len: usize) -> (r: Result<Vec<u8>, ring::error::Unspecified>)
    ensures
        r is Ok ==> r->Ok_0@.len() == len,
{
    let mut buf = vec![0u8; len];
    ring::rand::SystemRandom::new().fill(&mut buf)?;
    Ok(buf)
}

/// Relies on uuid's `Uuid::new_v4` and its hyphenated text form (36 characters).
#[verifier::external_body]
pub(crate) fn fresh_uuid() -> (r: String)
    ensures
        r@.len() == 36,
{
    uuid::Uuid::new_v4().to_string()
}

/// Relies on chrono's `Utc::now`: the current UTC time.
#[verifier::external_body]
pub(crate) fn utc_now() -> (r: Timestamp) {
    let now = chrono::Utc::now();
    Timestamp { secs: now.timestamp(), nanos: now.timestamp_subsec_nanos() }
}

/// Relies on chrono's `DateTime::from_timestamp` and `to_rfc3339`: `None` for
/// an instant chrono cannot represent, its RFC 3339 text otherwise. chrono
/// represents every instant with sub-second nanoseconds whose day lies within
/// its date range (years -262143 to 262142), which covers `renderable`.
#[verifier::external_body]
pub(crate) fn rfc3339(t: &Timestamp) -> (r: Option<String>)
    ensures
        r is Some <==> rfc3339_text(t.secs as int, t.nanos as int) is Some,
        t.renderable() ==> r is Some,
        r is Some ==> r->Some_0@ == rfc3339_text(t.secs as int, t.nanos as int)->Some_0,
{
    match chrono::DateTime::from_timestamp(t.secs, t.nanos) {
        Some(d) => Some(d.to_rfc3339()),
        None => None,
    }
}

/// Relies on ring's `digest::digest` with `SHA256`.
#[verifier::external_body]
pub(crate) fn sha256(data: &[u8]) -> (r: Vec<u8>)
    ensures
        r@ == sha256_digest(data@),
        r@.len() == 32,
{
    ring::digest::digest(&ring::digest::SHA256, data).as_ref().to_vec()
}

/// An empty byte string has empty hexadecimal text; any other begins with a
/// hexadecimal digit.
pub proof fn lemma_hex_lower_first(bytes: Seq<u8>)
    ensures
        hex_lower(bytes).len() == 2 * bytes.len(),
        bytes.len() > 0 ==> hex_lower(bytes)[0] == hex_digit(bytes[0] / 16),
    decreases bytes.len(),
{
    if bytes.len() > 0 {
        lemma_hex_lower_first(bytes.drop_last());
        if bytes.len() > 1 {
            assert(bytes.drop_last()[0] == bytes[0]);
        }
    }
}

/// Relies on hex's `encode`: two lower-case digits per byte.
#[verifier::external_body]
pub(crate) fn hex_encode(data: &[u8]) -> (r: String)
    ensures
        r@ == hex_lower(data@),
{
    hex::encode(data)
}

/// Relies on base64's `STANDARD` engine `encode`.
#[verifier::external_body]
pub(crate) fn base64_encode(data: &[u8]) -> (r: String)
    ensures
        r@ == base64_text(data@),
{
    base64::engine::general_purpose::STANDARD.encode(data)
}

/// Relies on base64's `STANDARD` engine `decode`, which inverts its `encode`
/// and accepts only canonical text (padding required, no stray trailing bits).
#[verifier::external_body]
pub(crate) fn base64_decode(text: &str) -> (r: Result<Vec<u8>, base64::DecodeError>)
    ensures
        forall|b: Seq<u8>| text@ == #[trigger] base64_text(b) ==> r is Ok && r->Ok_0@ == b,
        r is Ok ==> base64_text(r->Ok_0@) == text@,
{
    base64::engine::general_purpose::STANDARD.decode(text)
}

/// Relies on ring's `LessSafeKey::seal_in_place_append_tag` with `AES_256_GCM`
/// (the key and nonce lengths are the ones `UnboundKey::new` and
/// `Nonce::try_assume_unique_for_key` accept).
#[verifier::external_body]
pub(crate) fn aes256_gcm_seal(key: &[u8], nonce: &[u8], aad: &[u8], plaintext: &[u8]) -> (r:
    Result<Vec<u8>, ring::error::Unspecified>)
    requires
        key@.len() == 32,
        nonce@.len() == 12,
    ensures
        r is Ok ==> r->Ok_0@ == aes256_gcm_sealed(key@, nonce@, aad@, plaintext@),
        r is Ok <==> plaintext@.len() <= aes_gcm_max_input(),
        r is Ok ==> r->Ok_0@.len() == plaintext@.len() + 16,
{
    let k = ring::aead::LessSafeKey::new(
        ring::aead::UnboundKey::new(&ring::aead::AES_256_GCM, key)?,
    );
    let n = ring::aead::Nonce::try_assume_unique_for_key(nonce)?;
    let mut buf = plaintext.to_vec();
    k.seal_in_place_append_tag(n, ring::aead::Aad::from(aad), &mut buf)?;
    Ok(buf)
}

/// Relies on ring's `LessSafeKey::open_in_place` with `AES_256_GCM`: it
/// succeeds exactly on what sealing some plaintext under the same key, nonce
/// and associated data gives, and then returns that plaintext.
#[verifier::external_body]
pub(crate) fn aes256_gcm_open(key: &[u8], nonce: &[u8], aad: &[u8], ciphertext: &[u8]) -> (r:
    Result<Vec<u8>, ring::error::Unspecified>)
    requires
        key@.len() == 32,
        nonce@.len() == 12,
    ensures
        r is Ok ==> aes256_gcm_sealed(key@, nonce@, aad@, r->Ok_0@) == ciphertext@,
        r is Ok ==> r->Ok_0@.len() <= aes_gcm_max_input(),
        forall|p: Seq<u8>|
            p.len() <= aes_gcm_max_input() && ciphertext@ == #[trigger] aes256_gcm_sealed(
                key@,
                nonce@,
                aad@,
                p,
            ) ==> r is Ok && r->Ok_0@ == p,
{
    let k = ring::aead::LessSafeKey::new(
        ring::aead::UnboundKey::new(&ring::aead::AES_256_GCM, key)?,
    );
    let n = ring::aead::Nonce::try_assume_unique_for_key(nonce)?;
    let mut buf = ciphertext.to_vec();
    let plain = k.open_in_place(n, ring::aead::Aad::from(aad), &mut buf)?;
    Ok(plain.to_vec())
}

/// Relies on ring's `hmac::sign` with `HMAC_SHA256`.
#[verifier::external_body]
pub(crate) fn hmac_sha256(key: &[u8], message: &[u8]) -> (r: Vec<u8>)
    ensures
        r@ == hmac_sha256_tag(key@, message@),
        r@.len() == 32,
{
    let k = ring::hmac::Key::new(ring::hmac::HMAC_SHA256, key);
    ring::hmac::sign(&k, message).as_ref().to_vec()
}

/// Relies on argon2's `Argon2::default().hash_password` (Argon2id) with the
/// salt parsed by `SaltString::from_b64`; the PHC string starts `$argon2id$`.
/// It fails only on a refused salt or a password longer than `u32::MAX` bytes.
#[verifier::external_body]
pub(crate) fn argon2_hash(password: &[u8], salt: &str) -> (r: Result<
    String,
    argon2::password_hash::Error,
>)
    ensures
        password@.len() <= 0xFFFF_FFFF ==> (r is Ok <==> argon2_salt_ok(salt@)),
        r is Ok ==> r->Ok_0@ == argon2_phc(password@, salt@),
        r is Ok ==> has_argon2_marker(r->Ok_0@),
{
    let salt = argon2::password_hash::SaltString::from_b64(salt)?;
    let hash = argon2::Argon2::default().hash_password(password, &salt)?;
    Ok(hash.to_string())
}

/// Relies on argon2's `PasswordHash::new` and `Argon2::default().verify_password`:
/// it fails only where the string does not parse, and a hash made from
/// `password` verifies against it.
#[verifier::external_body]
pub(crate) fn argon2_verify(password: &[u8], phc: &str) -> (r: Result<
    bool,
    argon2::password_hash::Error,
>)
    ensures
        r is Ok <==> phc_parses(phc@),
        r is Ok ==> r->Ok_0 == argon2_verifies(password@, phc@),
        forall|salt: Seq<char>|
            phc@ == #[trigger] argon2_phc(password@, salt) ==> r is Ok && r->Ok_0 == true,
{
    let parsed = argon2::password_hash::PasswordHash::new(phc)?;
    Ok(argon2::Argon2::default().verify_password(password, &parsed).is_ok())
}

/// Relies on serde_json's `to_string` on a `BTreeMap`, which writes the
/// entries in key order; a map of strings always serializes.
#[verifier::external_body]
pub(crate) fn context_json(ctx: &BTreeMap<String, String>) -> (r: Result<
    String,
    serde_json::Error,
>)
    ensures
        r is Ok,
        r is Ok ==> r->Ok_0@ == canonical_json(ctx.deep_view()),
{
    serde_json::to_string(ctx)
}

/// Relies on `String::from_utf8`: it succeeds exactly on valid UTF-8.
#[verifier::external_body]
pub(crate) fn utf8_string(bytes: Vec<u8>) -> (r: Option<String>)
    ensures
        r is Some <==> valid_utf8(bytes@),
        r is Some ==> r->Some_0@ == decode_utf8(bytes@),
{
    match String::from_utf8(bytes) {
        Ok(s) => Some(s),
        Err(_) => None,
    }
}

} // verus!
