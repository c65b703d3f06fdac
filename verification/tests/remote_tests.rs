use flux::protocol::{auth_response, cert_fingerprint, encode_handshake_key};
use flux::ratelimit::{RateLimiter, MAX_FAILS};
use flux::remote::{
    accepts_connection, auth_line, auth_reply, authenticate, cert_matches_pin, challenge_line,
    challenge_nonce, check_verdict, expect_line, key_parts, read_verdict, reconcile_clients,
    server_switch, stream_payload, test_result, verdict_line, ClientConfig, ServerAction,
    TestOutcome,
};
use base64::Engine;

fn cfg(id: &str, host: &str, port: u16) -> ClientConfig {
    ClientConfig { id: id.into(), host: host.into(), port, key: "k".into() }
}

#[test]
fn own_certificate_matches_its_key() {
    let cert = b"certificate der bytes";
    let key = encode_handshake_key(&cert_fingerprint(cert), &[4; 32]);
    let (fp, secret) = key_parts(&key).unwrap();
    assert_eq!(secret, [4; 32]);
    assert!(cert_matches_pin(cert, &fp));
    assert!(!cert_matches_pin(b"another certificate", &fp));
    assert_eq!(key_parts("FM1:AAAA").unwrap_err(), "Invalid Handshake Key format");
}

#[test]
fn server_verdict_and_rate_limit() {
    let secret = [6u8; 32];
    let key = encode_handshake_key(&[0; 32], &secret);
    let nonce = [1u8; 32];
    let mac = auth_response(&key, &nonce).unwrap();
    let mut rl = RateLimiter::new();
    for _ in 0..MAX_FAILS {
        assert!(accepts_connection(&rl, "1.2.3.4", 0));
        assert!(!authenticate(&mut rl, "1.2.3.4", 0, Some("auth"), b"wrong", &nonce, &secret));
    }
    assert!(!accepts_connection(&rl, "1.2.3.4", 10));
    assert!(accepts_connection(&rl, "5.6.7.8", 10));
    assert!(authenticate(&mut rl, "1.2.3.4", 0, Some("auth"), &mac, &nonce, &secret));
    assert!(accepts_connection(&rl, "1.2.3.4", 10));
    assert!(!authenticate(&mut rl, "1.2.3.4", 0, Some("hello"), &mac, &nonce, &secret));
    assert_eq!(rl.failures("1.2.3.4"), 1);
}

#[test]
fn handshake_lines() {
    let nonce = [0u8; 3];
    assert_eq!(challenge_line(&nonce), "{\"nonce\":\"AAAA\",\"type\":\"challenge\"}\n");
    assert_eq!(auth_line(b"hi"), "{\"hmac\":\"aGk=\",\"type\":\"auth\"}\n");
    assert_eq!(verdict_line(true), "{\"type\":\"ok\"}\n");
    assert_eq!(verdict_line(false), "{\"type\":\"denied\"}\n");
    let parsed: serde_json::Value = serde_json::from_str(challenge_line(&[9, 9, 9]).trim()).unwrap();
    assert_eq!(parsed["type"], "challenge");
}

#[test]
fn client_handshake_checks() {
    assert_eq!(expect_line(0, "No challenge received").unwrap_err(), "No challenge received");
    assert!(expect_line(10, "No auth response").is_ok());
    assert!(check_verdict(Some("ok")).is_ok());
    assert_eq!(check_verdict(Some("denied")).unwrap_err(), "Authentication denied \u{2014} verify the Handshake Key");
    assert!(check_verdict(None).is_err());
    assert_eq!(test_result(TestOutcome::Connected), (true, "Connected".to_string()));
    assert_eq!(test_result(TestOutcome::TimedOut), (false, "Connection timed out".to_string()));
    assert_eq!(test_result(TestOutcome::Failed("refused".into())), (false, "refused".to_string()));
    assert_eq!(stream_payload("  {\"a\":1}\r\n"), Some("{\"a\":1}".to_string()));
    assert_eq!(stream_payload(" \n"), None);
}

#[test]
fn feed_switch() {
    assert_eq!(server_switch(false, true), ServerAction::Start);
    assert_eq!(server_switch(true, true), ServerAction::Nothing);
    assert_eq!(server_switch(true, false), ServerAction::Stop);
    assert_eq!(server_switch(false, false), ServerAction::Nothing);
}

#[test]
fn device_clients_follow_the_configuration() {
    let running = vec![cfg("a", "10.0.0.1", 5199), cfg("b", "10.0.0.2", 5199), cfg("c", "10.0.0.3", 5199)];
    let devices = vec![
        cfg("a", "10.0.0.1", 5199),
        cfg("b", "10.0.0.9", 5199),
        cfg("d", "10.0.0.4", 5199),
        cfg("", "10.0.0.5", 5199),
        cfg("d", "10.0.0.44", 6000),
    ];
    let r = reconcile_clients(&running, &devices);
    assert_eq!(r.stop, vec!["b".to_string(), "c".to_string()]);
    let started: Vec<(String, String, u16)> = r.start.iter().map(|c| (c.id.clone(), c.host.clone(), c.port)).collect();
    assert_eq!(
        started,
        vec![("b".to_string(), "10.0.0.9".to_string(), 5199), ("d".to_string(), "10.0.0.44".to_string(), 6000)]
    );
    let none = reconcile_clients(&running, &vec![]);
    assert_eq!(none.stop.len(), 3);
    assert!(none.start.is_empty());
}

#[test]
fn handshake_lines_are_read() {
    // The server reads the client's answer.
    let (ty, mac) = auth_reply(&auth_line(b"mac bytes")).unwrap();
    assert_eq!(ty.as_deref(), Some("auth"));
    assert_eq!(mac, b"mac bytes".to_vec());
    assert_eq!(auth_reply("{\"type\":\"auth\"}"), Some((Some("auth".to_string()), Vec::new())));
    assert_eq!(auth_reply("{\"type\":7,\"hmac\":\"***\"}"), Some((None, Vec::new())));
    assert_eq!(auth_reply("not json"), None);

    // The client reads the challenge's nonce.
    assert_eq!(challenge_nonce(&challenge_line(&[1, 2, 3])).unwrap(), vec![1, 2, 3]);
    assert_eq!(challenge_nonce("{\"type\":\"challenge\"}").unwrap(), Vec::<u8>::new());
    let parse_err = serde_json::from_str::<serde_json::Value>("garbage").unwrap_err().to_string();
    assert_eq!(challenge_nonce("  garbage\n").unwrap_err(), parse_err);
    let b64_err = base64::engine::general_purpose::STANDARD.decode("***").unwrap_err().to_string();
    assert_eq!(challenge_nonce("{\"nonce\":\"***\"}").unwrap_err(), b64_err);

    // The client reads the verdict.
    assert!(read_verdict(verdict_line(true)).is_ok());
    assert_eq!(
        read_verdict(verdict_line(false)).unwrap_err(),
        "Authentication denied \u{2014} verify the Handshake Key"
    );
    let parse_err = serde_json::from_str::<serde_json::Value>("}").unwrap_err().to_string();
    assert_eq!(read_verdict("}\n").unwrap_err(), parse_err);
}
