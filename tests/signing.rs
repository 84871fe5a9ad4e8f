use security_rust::{
    constant_time_eq, is_fresh, starts_with_argon2_marker, text_eq, CryptoService, KeyEntry,
    KeyRing, SecurityError, Timestamp,
};

fn service() -> CryptoService {
    CryptoService::new("0123456789abcdef0123456789abcdef").expect("service starts")
}

const T: i64 = 1_700_000_000;

#[test]
fn signature_fresh_at_59_minutes_stale_at_61() {
    let svc = service();
    let t = Timestamp::new(T, 123_456_789);
    let sig = svc.sign_at("payload", None, t).unwrap();
    assert_eq!(sig.timestamp, t);
    let at59 = Timestamp::new(T + 59 * 60, 123_456_789);
    let at61 = Timestamp::new(T + 61 * 60, 123_456_789);
    assert_eq!(svc.verify_signature_at("payload", &sig.signature, &t, &at59), Ok(true));
    assert_eq!(svc.verify_signature_at("payload", &sig.signature, &t, &at61), Ok(false));
}

#[test]
fn signature_is_hex_hmac_and_depends_on_time_and_data() {
    let svc = service();
    let t = Timestamp::new(T, 0);
    let a = svc.sign_at("payload", Some("k1"), t).unwrap();
    assert_eq!(a.signature.len(), 64);
    assert!(a.signature.chars().all(|c| c.is_ascii_hexdigit() && !c.is_ascii_uppercase()));
    assert_eq!(a.key_id, "k1");
    let b = svc.sign_at("payload", None, Timestamp::new(T + 1, 0)).unwrap();
    assert_eq!(b.key_id, "default");
    assert_ne!(a.signature, b.signature);
    let c = svc.sign_at("payloae", None, t).unwrap();
    assert_ne!(a.signature, c.signature);
    assert_eq!(svc.verify_signature_at("payloae", &a.signature, &t, &t), Ok(false));
}

#[test]
fn signature_now_verifies_now() {
    let svc = service();
    let sig = svc.generate_signature("now", None).unwrap();
    assert_eq!(svc.verify_signature("now", &sig.signature, &sig.timestamp), Ok(true));
    assert_eq!(svc.verify_signature("now!", &sig.signature, &sig.timestamp), Ok(false));
}

#[test]
fn unrenderable_timestamp_is_crypto_error() {
    let svc = service();
    let t = Timestamp::new(i64::MAX - 10, 0);
    assert_eq!(svc.verify_signature_at("x", "00", &Timestamp::new(T, 1_500_000_000), &Timestamp::new(T, 0)), Err(SecurityError::CryptoError));
    assert_eq!(svc.sign_at("x", None, t).err(), Some(SecurityError::CryptoError));
    assert_eq!(svc.verify_signature_at("x", "00", &t, &t), Err(SecurityError::CryptoError));
}

#[test]
fn freshness_window_edges() {
    let t = Timestamp::new(T, 500);
    assert!(is_fresh(&t, &Timestamp::new(T + 3600, 500)));
    assert!(!is_fresh(&t, &Timestamp::new(T + 3600, 501)));
    assert!(is_fresh(&t, &Timestamp::new(T - 10, 0)));
    assert!(is_fresh(&Timestamp::new(i64::MAX, 0), &Timestamp::new(i64::MIN, 0)));
    assert!(!is_fresh(&Timestamp::new(i64::MIN, 0), &Timestamp::new(i64::MAX, 0)));
}

#[test]
fn timestamp_order() {
    let a = Timestamp::new(5, 999_999_999);
    let b = Timestamp::new(6, 0);
    assert!(a.is_before(&b));
    assert!(!b.is_before(&a));
    assert!(!a.is_before(&a));
}

#[test]
fn comparisons() {
    assert!(constant_time_eq(b"abc", b"abc"));
    assert!(!constant_time_eq(b"abc", b"abd"));
    assert!(!constant_time_eq(b"abc", b"ab"));
    assert!(constant_time_eq(b"", b""));
    assert!(text_eq("héllo", "héllo"));
    assert!(!text_eq("héllo", "hello"));
    assert!(starts_with_argon2_marker("$argon2id$v=19"));
    assert!(starts_with_argon2_marker("$argon2"));
    assert!(!starts_with_argon2_marker("$argon"));
    assert!(!starts_with_argon2_marker("ba7816bf"));
}

fn entry(id: &str, secs: i64) -> KeyEntry {
    KeyEntry { id: id.to_string(), material: vec![secs as u8; 32], created_at: Timestamp::new(secs, 0) }
}

#[test]
fn empty_ring_has_no_current_key() {
    let ring = KeyRing::new();
    assert!(!ring.is_ready());
    assert_eq!(ring.current_key_id(), Err(SecurityError::KeyRingEmpty));
    assert_eq!(ring.get("k").err(), Some(SecurityError::KeyNotFound));
}

#[test]
fn ring_evicts_oldest_by_creation_time() {
    let mut ring = KeyRing::new();
    ring.insert_key(entry("b", 30));
    ring.insert_key(entry("a", 10));
    ring.insert_key(entry("c", 20));
    assert_eq!(ring.current_key_id(), Ok("b".to_string()));
    ring.insert_key(entry("d", 40));
    assert_eq!(ring.len(), 3);
    assert_eq!(ring.get("a").err(), Some(SecurityError::KeyNotFound));
    assert!(ring.get("b").is_ok() && ring.get("c").is_ok() && ring.get("d").is_ok());
    assert_eq!(ring.current_key_id(), Ok("d".to_string()));
}

#[test]
fn ring_ties_go_to_insertion_order() {
    let mut ring = KeyRing::new();
    ring.insert_key(entry("x", 7));
    ring.insert_key(entry("y", 7));
    ring.insert_key(entry("z", 7));
    assert_eq!(ring.current_key_id(), Ok("z".to_string()));
    ring.insert_key(entry("w", 7));
    assert_eq!(ring.get("x").err(), Some(SecurityError::KeyNotFound));
    assert_eq!(ring.current_key_id(), Ok("w".to_string()));
}

#[test]
fn ring_replaces_same_identifier() {
    let mut ring = KeyRing::new();
    ring.insert_key(entry("x", 1));
    ring.insert_key(entry("x", 2));
    assert_eq!(ring.len(), 1);
    assert_eq!(ring.get("x").unwrap().created_at, Timestamp::new(2, 0));
}

#[test]
fn four_rotations_from_empty_keep_three() {
    let mut ring = KeyRing::new();
    let first = ring.generate_and_activate().unwrap();
    assert_eq!(first.len(), 36);
    assert_eq!(ring.current_key_id(), Ok(first.clone()));
    for _ in 0..3 {
        let id = ring.generate_and_activate().unwrap();
        assert_eq!(ring.current_key_id(), Ok(id));
    }
    assert_eq!(ring.len(), 3);
    assert_eq!(ring.get(&first).err(), Some(SecurityError::KeyNotFound));
}

#[test]
fn rotation_after_future_dated_key_is_current() {
    let mut ring = KeyRing::new();
    ring.insert_key(entry("future", i64::MAX / 2));
    let id = ring.generate_and_activate().unwrap();
    assert_eq!(ring.len(), 2);
    assert_eq!(ring.current_key_id(), Ok(id));
}
