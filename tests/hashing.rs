use security_rust::{CryptoService, HashRequest, SecurityError};

fn service() -> CryptoService {
    CryptoService::new("0123456789abcdef0123456789abcdef").expect("service starts")
}

const SALT: &str = "c29tZXNhbHQ";

#[test]
fn fast_digest_of_abc() {
    let svc = service();
    assert_eq!(
        svc.compute_hash("abc", None).unwrap(),
        "ba7816bf8f01cfea414140de5dae2223b00361a396177a9cb410ff61f20015ad"
    );
    assert_eq!(
        svc.compute_hash("", None).unwrap(),
        "e3b0c44298fc1c149afbf4c8996fb92427ae41e4649b934ca495991b7852b855"
    );
}

#[test]
fn fast_hash_verifies_and_detects_change() {
    let svc = service();
    let h = svc.compute_hash("password1", None).unwrap();
    assert_eq!(svc.verify_hash("password1", &h), Ok(true));
    assert_eq!(svc.verify_hash("passwordl", &h), Ok(false));
    assert_eq!(svc.verify_hash("password1", "not a digest"), Ok(false));
}

#[test]
fn salted_hash_verifies_and_detects_change() {
    let svc = service();
    let h = svc.compute_hash("password1", Some(SALT)).unwrap();
    assert!(h.starts_with("$argon2id$"));
    assert!(h.contains(SALT));
    assert_eq!(svc.verify_hash("password1", &h), Ok(true));
    assert_eq!(svc.verify_hash("passwore1", &h), Ok(false));
}

#[test]
fn salted_hash_is_deterministic_per_salt() {
    let svc = service();
    let a = svc.compute_hash("pw", Some(SALT)).unwrap();
    let b = svc.compute_hash("pw", Some(SALT)).unwrap();
    let c = svc.compute_hash("pw", Some("b3RoZXJzYWx0")).unwrap();
    assert_eq!(a, b);
    assert_ne!(a, c);
}

#[test]
fn bad_salt_is_invalid_salt() {
    let svc = service();
    assert_eq!(svc.compute_hash("pw", Some("!!")), Err(SecurityError::InvalidSalt));
    // valid base64 but shorter than the eight-byte minimum once decoded
    assert_eq!(svc.compute_hash("pw", Some("abcd")), Err(SecurityError::InvalidSalt));
}

#[test]
fn unparsable_argon2_hash_is_invalid_hash_format() {
    let svc = service();
    assert_eq!(svc.verify_hash("pw", "$argon2 is not a PHC string"), Err(SecurityError::InvalidHashFormat));
}

#[test]
fn hash_request_fills_defaults() {
    let svc = service();
    let resp = svc
        .hash_request(&HashRequest { data: "abc".to_string(), salt: None, algorithm: None })
        .unwrap();
    assert_eq!(resp.hash, svc.compute_hash("abc", None).unwrap());
    assert_eq!(resp.salt, "none");
    assert_eq!(resp.algorithm, "sha256");
    let resp = svc
        .hash_request(&HashRequest {
            data: "abc".to_string(),
            salt: Some(SALT.to_string()),
            algorithm: Some("argon2".to_string()),
        })
        .unwrap();
    assert!(resp.hash.starts_with("$argon2"));
    assert_eq!(resp.salt, SALT);
    assert_eq!(resp.algorithm, "argon2");
}
