use base64::Engine;
use security_rust::{
    CryptoService, DecryptionRequest, EncryptionRequest, EncryptionResponse, SecurityError,
};
use std::collections::BTreeMap;
use std::collections::HashSet;

const MASTER: &str = "0123456789abcdef0123456789abcdef";

fn service() -> CryptoService {
    CryptoService::new(MASTER).expect("service starts")
}

fn b64(bytes: &[u8]) -> String {
    base64::engine::general_purpose::STANDARD.encode(bytes)
}

fn unb64(text: &str) -> Vec<u8> {
    base64::engine::general_purpose::STANDARD.decode(text).unwrap()
}

fn user_context() -> BTreeMap<String, String> {
    let mut ctx = BTreeMap::new();
    ctx.insert("user".to_string(), "42".to_string());
    ctx
}

fn encrypt(svc: &CryptoService, data: &str, ctx: Option<BTreeMap<String, String>>) -> EncryptionResponse {
    svc.encrypt_data(EncryptionRequest { data: data.to_string(), key_id: None, context: ctx })
        .expect("encrypts")
}

fn request_for(resp: &EncryptionResponse) -> DecryptionRequest {
    DecryptionRequest {
        encrypted_data: resp.encrypted_data.clone(),
        key_id: resp.key_id.clone(),
        nonce: resp.nonce.clone(),
        context_hash: resp.context_hash.clone(),
    }
}

#[test]
fn hello_world_with_context_round_trips() {
    let svc = service();
    let resp = encrypt(&svc, "hello world", Some(user_context()));
    assert_eq!(resp.context_hash.as_ref().map(|h| h.len()), Some(64));
    assert_eq!(svc.decrypt_data(request_for(&resp)), Ok("hello world".to_string()));
}

#[test]
fn omitting_context_hash_fails_decryption() {
    let svc = service();
    let resp = encrypt(&svc, "hello world", Some(user_context()));
    let mut req = request_for(&resp);
    req.context_hash = None;
    assert_eq!(svc.decrypt_data(req), Err(SecurityError::DecryptionFailed));
}

#[test]
fn round_trip_without_context_and_empty_text() {
    let svc = service();
    for text in ["", "a", "plain text", "ünïcödé ✓ 🔐"] {
        let resp = encrypt(&svc, text, None);
        assert_eq!(resp.context_hash, None);
        assert_eq!(svc.decrypt_data(request_for(&resp)), Ok(text.to_string()));
    }
}

#[test]
fn round_trip_with_explicit_key_id() {
    let svc = service();
    let first = encrypt(&svc, "x", None);
    let resp = svc
        .encrypt_data(EncryptionRequest {
            data: "named key".to_string(),
            key_id: Some(first.key_id.clone()),
            context: Some(BTreeMap::new()),
        })
        .unwrap();
    assert_eq!(resp.key_id, first.key_id);
    assert_eq!(svc.decrypt_data(request_for(&resp)), Ok("named key".to_string()));
}

#[test]
fn envelope_shape() {
    let svc = service();
    let resp = encrypt(&svc, "hello world", None);
    assert_eq!(unb64(&resp.nonce).len(), 12);
    // ciphertext carries the 16-byte tag after the 11 bytes of text
    assert_eq!(unb64(&resp.encrypted_data).len(), 11 + 16);
    assert_ne!(unb64(&resp.encrypted_data)[..11], b"hello world"[..]);
}

#[test]
fn context_hash_is_digest_of_sorted_json() {
    let svc = service();
    let mut ctx = BTreeMap::new();
    ctx.insert("b".to_string(), "2".to_string());
    ctx.insert("a".to_string(), "1".to_string());
    let resp = encrypt(&svc, "t", Some(ctx));
    let expected = svc.compute_hash("{\"a\":\"1\",\"b\":\"2\"}", None).unwrap();
    assert_eq!(resp.context_hash, Some(expected));
}

#[test]
fn flipped_ciphertext_bits_are_rejected() {
    let svc = service();
    let resp = encrypt(&svc, "tamper me", Some(user_context()));
    let bytes = unb64(&resp.encrypted_data);
    for i in 0..bytes.len() {
        for bit in 0..8 {
            let mut t = bytes.clone();
            t[i] ^= 1 << bit;
            let mut req = request_for(&resp);
            req.encrypted_data = b64(&t);
            assert_eq!(svc.decrypt_data(req), Err(SecurityError::DecryptionFailed));
        }
    }
}

#[test]
fn flipped_nonce_bits_are_rejected() {
    let svc = service();
    let resp = encrypt(&svc, "tamper me", None);
    let nonce = unb64(&resp.nonce);
    for i in 0..nonce.len() {
        for bit in 0..8 {
            let mut t = nonce.clone();
            t[i] ^= 1 << bit;
            let mut req = request_for(&resp);
            req.nonce = b64(&t);
            assert_eq!(svc.decrypt_data(req), Err(SecurityError::DecryptionFailed));
        }
    }
}

#[test]
fn flipped_context_hash_bits_are_rejected() {
    let svc = service();
    let resp = encrypt(&svc, "tamper me", Some(user_context()));
    let hash = resp.context_hash.clone().unwrap().into_bytes();
    for i in 0..hash.len() {
        for bit in 0..7 {
            let mut t = hash.clone();
            t[i] ^= 1 << bit;
            let mut req = request_for(&resp);
            req.context_hash = Some(String::from_utf8(t).unwrap());
            assert_eq!(svc.decrypt_data(req), Err(SecurityError::DecryptionFailed));
        }
    }
}

#[test]
fn nonces_are_unique_over_ten_thousand_encryptions() {
    let svc = service();
    let mut seen = HashSet::new();
    for _ in 0..10_000 {
        let resp = encrypt(&svc, "same plaintext", None);
        assert!(seen.insert(resp.nonce));
    }
}

#[test]
fn encrypt_with_nonce_is_deterministic_and_checks_length() {
    let svc = service();
    let req = EncryptionRequest { data: "fixed".to_string(), key_id: None, context: None };
    let a = svc.encrypt_with_nonce(&req, &[7u8; 12]).unwrap();
    let b = svc.encrypt_with_nonce(&req, &[7u8; 12]).unwrap();
    assert_eq!(a.encrypted_data, b.encrypted_data);
    assert_eq!(a.nonce, b64(&[7u8; 12]));
    assert_eq!(svc.decrypt_data(request_for(&a)), Ok("fixed".to_string()));
    assert_eq!(svc.encrypt_with_nonce(&req, &[7u8; 8]).err(), Some(SecurityError::InvalidNonce));
}

#[test]
fn unknown_key_is_key_not_found() {
    let svc = service();
    let req = EncryptionRequest {
        data: "x".to_string(),
        key_id: Some("no-such-key".to_string()),
        context: None,
    };
    assert_eq!(svc.encrypt_data(req).err(), Some(SecurityError::KeyNotFound));
    let resp = encrypt(&svc, "x", None);
    let mut dreq = request_for(&resp);
    dreq.key_id = "no-such-key".to_string();
    assert_eq!(svc.decrypt_data(dreq), Err(SecurityError::KeyNotFound));
}

#[test]
fn malformed_nonce_is_invalid_nonce() {
    let svc = service();
    let resp = encrypt(&svc, "x", None);
    let mut req = request_for(&resp);
    req.nonce = "not base64!".to_string();
    assert_eq!(svc.decrypt_data(req), Err(SecurityError::InvalidNonce));
    let mut req = request_for(&resp);
    req.nonce = b64(&[1u8; 8]);
    assert_eq!(svc.decrypt_data(req), Err(SecurityError::InvalidNonce));
}

#[test]
fn malformed_ciphertext_is_decryption_failed() {
    let svc = service();
    let resp = encrypt(&svc, "x", None);
    let mut req = request_for(&resp);
    req.encrypted_data = "%%%".to_string();
    assert_eq!(svc.decrypt_data(req), Err(SecurityError::DecryptionFailed));
    let mut req = request_for(&resp);
    req.encrypted_data = b64(&[0u8; 4]);
    assert_eq!(svc.decrypt_data(req), Err(SecurityError::DecryptionFailed));
}

#[test]
fn rotation_keeps_three_keys_and_evicts_the_first() {
    let mut svc = service();
    let first = encrypt(&svc, "old secret", None);
    for _ in 0..3 {
        svc.rotate_keys().unwrap();
    }
    assert!(svc.is_ready());
    assert_eq!(svc.decrypt_data(request_for(&first)), Err(SecurityError::KeyNotFound));
}

#[test]
fn recent_keys_survive_rotation() {
    let mut svc = service();
    let first = encrypt(&svc, "still here", None);
    svc.rotate_keys().unwrap();
    svc.rotate_keys().unwrap();
    assert_eq!(svc.decrypt_data(request_for(&first)), Ok("still here".to_string()));
    let newest = svc.rotate_keys().unwrap();
    assert_eq!(encrypt(&svc, "y", None).key_id, newest);
}

#[test]
fn short_master_key_is_init_error() {
    assert_eq!(CryptoService::new("too short").err(), Some(SecurityError::CryptoInitError));
    assert_eq!(
        CryptoService::new("0123456789abcdef0123456789abcdef0").err(),
        Some(SecurityError::CryptoInitError)
    );
}

#[test]
fn secure_random_has_requested_length() {
    let svc = service();
    assert_eq!(svc.secure_random(0).unwrap().len(), 0);
    assert_eq!(svc.secure_random(33).unwrap().len(), 33);
    assert_ne!(svc.secure_random(32).unwrap(), svc.secure_random(32).unwrap());
}
