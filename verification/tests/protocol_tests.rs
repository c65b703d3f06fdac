use base64::Engine;
use flux::crypto::compute_hmac;
use flux::widget::{share_code, share_code_payload};
use flux::identity::{certificate_names, identity_location_for, identity_path, ServerIdentity, StoredIdentity};
use flux::protocol::{
    auth_response, cert_fingerprint, decode_handshake_key, encode_handshake_key, fixed_time_eq,
    verify_auth, KEY_PREFIX,
};
use flux::ratelimit::{RateLimiter, LOCKOUT_MS, MAX_FAILS};

fn hex(b: &[u8]) -> String {
    b.iter().map(|x| format!("{x:02x}")).collect()
}

#[test]
fn base64_round_trip() {
    let data = b"flux sensor feed";
    let code = share_code(data);
    assert_eq!(code, "FMA1:Zmx1eCBzZW5zb3IgZmVlZA==");
    assert_eq!(share_code_payload(&code).unwrap(), data.to_vec());
    assert!(share_code_payload("FMA1:not base64!").is_none());
}

#[test]
fn hmac_matches_rfc4231_vector() {
    let mac = compute_hmac(b"what do ya want for nothing?", b"Jefe");
    assert_eq!(
        hex(&mac),
        "5bdcc146bf60754e6a042426089575c75a003f089d2739839dec58b964ec3843"
    );
}

#[test]
fn fingerprint_is_sha256_of_the_der() {
    let fp = cert_fingerprint(b"abc");
    assert_eq!(
        hex(&fp),
        "ba7816bf8f01cfea414140de5dae2223b00361a396177a9cb410ff61f20015ad"
    );
}

#[test]
fn handshake_key_round_trips() {
    let fp = [7u8; 32];
    let secret = [42u8; 32];
    let key = encode_handshake_key(&fp, &secret);
    assert!(key.starts_with(KEY_PREFIX));
    assert_eq!(decode_handshake_key(&key), Some((fp, secret)));
    // Surrounding whitespace after the prefix is tolerated.
    let spaced = format!("FM1:  {}  ", &key[4..]);
    assert_eq!(decode_handshake_key(&spaced), Some((fp, secret)));
}

#[test]
fn malformed_keys_are_rejected() {
    assert_eq!(decode_handshake_key("FM1:AAAA"), None);
    assert_eq!(decode_handshake_key("XX1:AAAA"), None);
    assert_eq!(decode_handshake_key(""), None);
    assert!(auth_response("FM1:AAAA", b"nonce").is_none());
}

#[test]
fn constant_time_comparison() {
    assert!(fixed_time_eq(b"abc", b"abc"));
    assert!(!fixed_time_eq(b"abc", b"abd"));
    assert!(!fixed_time_eq(b"abc", b"ab"));
    assert!(fixed_time_eq(b"", b""));
}

#[test]
fn key_holder_is_accepted_and_others_are_not() {
    let fp = [1u8; 32];
    let secret = [9u8; 32];
    let key = encode_handshake_key(&fp, &secret);
    let nonce = b"0123456789abcdef0123456789abcdef";
    let mac = auth_response(&key, nonce).unwrap();
    assert!(verify_auth(Some("auth"), &mac, nonce, &secret));
    assert!(!verify_auth(Some("hello"), &mac, nonce, &secret));
    assert!(!verify_auth(None, &mac, nonce, &secret));
    let other = [8u8; 32];
    assert!(!verify_auth(Some("auth"), &mac, nonce, &other));
}

#[test]
fn fifth_failure_locks_until_expiry() {
    let mut rl = RateLimiter::new();
    for i in 0..MAX_FAILS {
        assert!(!rl.is_locked_out("10.0.0.1", 1000), "locked after {i} failures");
        rl.record_failure("10.0.0.1", 1000);
    }
    assert_eq!(rl.failures("10.0.0.1"), 5);
    assert!(rl.is_locked_out("10.0.0.1", 1000));
    assert!(rl.is_locked_out("10.0.0.1", 1000 + LOCKOUT_MS - 1));
    assert!(!rl.is_locked_out("10.0.0.1", 1000 + LOCKOUT_MS));
    assert!(!rl.is_locked_out("10.0.0.2", 1000));
    rl.reset_failures("10.0.0.1");
    assert!(!rl.is_locked_out("10.0.0.1", 1000));
    assert_eq!(rl.failures("10.0.0.1"), 0);
}

#[test]
fn stored_identity_round_trips() {
    let id = ServerIdentity::from_parts(vec![1, 2, 3], vec![4, 5], [3u8; 32]);
    let stored = id.to_stored();
    assert_eq!(stored.cert_der_b64, "AQID");
    assert_eq!(stored.key_der_b64, "BAU=");
    let back = ServerIdentity::from_stored(&stored).unwrap();
    assert_eq!(back.cert_der, vec![1, 2, 3]);
    assert_eq!(back.key_der, vec![4, 5]);
    assert_eq!(back.hmac_secret, [3u8; 32]);
    let bad = StoredIdentity {
        cert_der_b64: stored.cert_der_b64.clone(),
        key_der_b64: stored.key_der_b64.clone(),
        hmac_secret_b64: base64::engine::general_purpose::STANDARD.encode([1u8; 31]),
    };
    assert!(ServerIdentity::from_stored(&bad).is_none());
}

#[test]
fn handshake_key_carries_the_certificate_fingerprint() {
    let id = ServerIdentity::from_parts(b"abc".to_vec(), vec![], [5u8; 32]);
    let key = id.handshake_key();
    let (fp, secret) = decode_handshake_key(&key).unwrap();
    assert_eq!(fp, cert_fingerprint(b"abc"));
    assert_eq!(secret, [5u8; 32]);
}

#[test]
fn identity_file_path() {
    assert_eq!(
        identity_path(Some("/home/u/.config/fluxid".to_string()), '/'),
        "/home/u/.config/fluxid/remote_identity.json"
    );
    assert_eq!(identity_path(Some("C:\\cfg\\".to_string()), '\\'), "C:\\cfg\\remote_identity.json");
    assert_eq!(identity_path(None, '/'), "./remote_identity.json");
    let p = ServerIdentity::default_path();
    assert!(p.ends_with("remote_identity.json"));
    let sep = std::path::MAIN_SEPARATOR;
    assert!(p.ends_with(&format!("{sep}Flux{sep}remote_identity.json")) || p == format!(".{sep}remote_identity.json"));
}

#[test]
fn fresh_identity_is_generated_when_nothing_is_stored() {
    let (id, fresh) = ServerIdentity::load_or_create(None).unwrap();
    assert!(fresh);
    assert!(!id.cert_der.is_empty());
    assert!(!id.key_der.is_empty());
    let stored = id.to_stored();
    let (again, fresh2) = ServerIdentity::load_or_create(Some(stored)).unwrap();
    assert!(!fresh2);
    assert_eq!(again.cert_der, id.cert_der);
    assert_eq!(again.hmac_secret, id.hmac_secret);
}

#[test]
fn identity_location_and_certificate() {
    assert_eq!(
        identity_location_for(Some("C:\\Users\\u\\AppData\\Roaming".to_string()), '\\'),
        "C:\\Users\\u\\AppData\\Roaming\\Flux\\remote_identity.json"
    );
    assert_eq!(identity_location_for(Some("/home/u/.config/".to_string()), '/'), "/home/u/.config/Flux/remote_identity.json");
    assert_eq!(identity_location_for(None, '/'), "./remote_identity.json");
    assert_eq!(certificate_names(), vec!["Flux".to_string()]);
    let id = ServerIdentity::generate().unwrap();
    assert!(!id.cert_der.is_empty() && !id.key_der.is_empty());
    let (again, fresh) = ServerIdentity::load_or_create(Some(id.to_stored())).unwrap();
    assert!(!fresh);
    assert_eq!(again.handshake_key(), id.handshake_key());
    let (_, fresh) = ServerIdentity::load_or_create(None).unwrap();
    assert!(fresh);
}
