//! End to end over an in-memory connection: a server and a client run the
//! library's handshake over TLS with a pinned certificate, then a snapshot
//! line streams across.

use std::sync::Arc;
use std::time::{Duration, Instant};

use flux::identity::ServerIdentity;
use flux::protocol::{auth_response, encode_handshake_key};
use flux::ratelimit::RateLimiter;
use flux::remote::{
    accepts_connection, auth_line, auth_reply, authenticate, cert_matches_pin, challenge_line,
    challenge_nonce, expect_line, key_parts, read_verdict, stream_payload, verdict_line,
};

use rustls::client::danger::{HandshakeSignatureValid, ServerCertVerified, ServerCertVerifier};
use rustls::crypto::{verify_tls12_signature, verify_tls13_signature, CryptoProvider};
use rustls::pki_types::{CertificateDer, PrivateKeyDer, PrivatePkcs8KeyDer, ServerName, UnixTime};
use rustls::{ClientConfig, DigitallySignedStruct, ServerConfig, SignatureScheme};
use tokio::io::{AsyncBufReadExt, AsyncWriteExt, BufReader, DuplexStream, ReadHalf, WriteHalf};
use tokio::sync::Mutex;
use tokio_rustls::{TlsAcceptor, TlsConnector};

type ClientStream = tokio_rustls::client::TlsStream<DuplexStream>;

#[derive(Debug)]
struct PinnedVerifier {
    expected: [u8; 32],
    provider: Arc<CryptoProvider>,
}

impl ServerCertVerifier for PinnedVerifier {
    fn verify_server_cert(
        &self,
        end_entity: &CertificateDer<'_>,
        _intermediates: &[CertificateDer<'_>],
        _server_name: &ServerName<'_>,
        _ocsp_response: &[u8],
        _now: UnixTime,
    ) -> Result<ServerCertVerified, rustls::Error> {
        if cert_matches_pin(end_entity.as_ref(), &self.expected) {
            Ok(ServerCertVerified::assertion())
        } else {
            Err(rustls::Error::General("certificate fingerprint mismatch".into()))
        }
    }

    fn verify_tls12_signature(
        &self,
        message: &[u8],
        cert: &CertificateDer<'_>,
        dss: &DigitallySignedStruct,
    ) -> Result<HandshakeSignatureValid, rustls::Error> {
        verify_tls12_signature(message, cert, dss, &self.provider.signature_verification_algorithms)
    }

    fn verify_tls13_signature(
        &self,
        message: &[u8],
        cert: &CertificateDer<'_>,
        dss: &DigitallySignedStruct,
    ) -> Result<HandshakeSignatureValid, rustls::Error> {
        verify_tls13_signature(message, cert, dss, &self.provider.signature_verification_algorithms)
    }

    fn supported_verify_schemes(&self) -> Vec<SignatureScheme> {
        self.provider.signature_verification_algorithms.supported_schemes()
    }
}

fn provider() -> Arc<CryptoProvider> {
    Arc::new(rustls::crypto::ring::default_provider())
}

fn server_config(id: &ServerIdentity) -> Arc<ServerConfig> {
    let certs = vec![CertificateDer::from(id.cert_der.clone())];
    let key = PrivateKeyDer::Pkcs8(PrivatePkcs8KeyDer::from(id.key_der.clone()));
    let config = ServerConfig::builder_with_provider(provider())
        .with_safe_default_protocol_versions()
        .unwrap()
        .with_no_client_auth()
        .with_single_cert(certs, key)
        .unwrap();
    Arc::new(config)
}

fn client_config(expected: [u8; 32]) -> Arc<ClientConfig> {
    let verifier = Arc::new(PinnedVerifier { expected, provider: provider() });
    let config = ClientConfig::builder_with_provider(provider())
        .with_safe_default_protocol_versions()
        .unwrap()
        .dangerous()
        .with_custom_certificate_verifier(verifier)
        .with_no_client_auth();
    Arc::new(config)
}

/// The serving machine: its TLS acceptor, secret, rate limiter and the
/// snapshot lines it streams.
struct Server {
    acceptor: TlsAcceptor,
    secret: [u8; 32],
    limiter: Mutex<RateLimiter>,
    started: Instant,
    snapshots: Vec<String>,
}

/// The server's side of one connection: challenge, verdict, then the
/// snapshot lines.
async fn handle_client(stream: DuplexStream, ip: String, server: Arc<Server>) -> Result<(), String> {
    let now = server.started.elapsed().as_millis() as u64;
    if !accepts_connection(&*server.limiter.lock().await, &ip, now) {
        return Ok(());
    }
    let tls = server.acceptor.accept(stream).await.map_err(|e| e.to_string())?;
    let (read_half, mut write_half) = tokio::io::split(tls);
    let mut reader = BufReader::new(read_half);

    let nonce: [u8; 32] = rand::random();
    write_half.write_all(challenge_line(&nonce).as_bytes()).await.map_err(|e| e.to_string())?;
    write_half.flush().await.map_err(|e| e.to_string())?;

    let mut line = String::new();
    let n = reader.read_line(&mut line).await.map_err(|e| e.to_string())?;
    expect_line(n, "no auth response")?;
    let (msg_type, provided) = auth_reply(&line).ok_or_else(|| "malformed auth response".to_string())?;
    let accepted = authenticate(
        &mut *server.limiter.lock().await,
        &ip,
        now,
        msg_type.as_deref(),
        &provided,
        &nonce,
        &server.secret,
    );
    write_half.write_all(verdict_line(accepted).as_bytes()).await.map_err(|e| e.to_string())?;
    write_half.flush().await.map_err(|e| e.to_string())?;
    if !accepted {
        return Ok(());
    }
    for s in server.snapshots.iter() {
        write_half.write_all(s.as_bytes()).await.map_err(|e| e.to_string())?;
        write_half.flush().await.map_err(|e| e.to_string())?;
        tokio::time::sleep(Duration::from_millis(20)).await;
    }
    Ok(())
}

/// Open a connection to the server: one end is served, the other returned.
fn dial(server: &Arc<Server>) -> DuplexStream {
    let (served, ours) = tokio::io::duplex(1 << 16);
    let server = server.clone();
    tokio::spawn(async move {
        let _ = handle_client(served, "127.0.0.1".to_string(), server).await;
    });
    ours
}

/// The client's side: pin, answer the challenge, read the verdict.
async fn connect_and_auth(
    server: &Arc<Server>,
    key: &str,
) -> Result<(BufReader<ReadHalf<ClientStream>>, WriteHalf<ClientStream>), String> {
    let (fp, _secret) = key_parts(key)?;
    let connector = TlsConnector::from(client_config(fp));
    let name = ServerName::try_from("Flux").map_err(|e| e.to_string())?;
    let tls = connector.connect(name, dial(server)).await.map_err(|e| e.to_string())?;
    let (read_half, mut write_half) = tokio::io::split(tls);
    let mut reader = BufReader::new(read_half);

    let mut line = String::new();
    let n = reader.read_line(&mut line).await.map_err(|e| e.to_string())?;
    expect_line(n, "No challenge received")?;
    let nonce = challenge_nonce(&line)?;
    let mac = auth_response(key, &nonce).ok_or_else(|| "Invalid Handshake Key format".to_string())?;
    write_half.write_all(auth_line(&mac).as_bytes()).await.map_err(|e| e.to_string())?;
    write_half.flush().await.map_err(|e| e.to_string())?;

    line.clear();
    let n = reader.read_line(&mut line).await.map_err(|e| e.to_string())?;
    expect_line(n, "No auth response")?;
    read_verdict(&line)?;
    Ok((reader, write_half))
}

/// The first snapshot line the server streams after a successful handshake.
async fn first_snapshot(server: &Arc<Server>, key: &str) -> Result<String, String> {
    let (mut reader, _writer) = connect_and_auth(server, key).await?;
    let mut line = String::new();
    loop {
        line.clear();
        let n = reader.read_line(&mut line).await.map_err(|e| e.to_string())?;
        if n == 0 {
            return Err("stream ended".to_string());
        }
        if let Some(payload) = stream_payload(&line) {
            return Ok(payload);
        }
    }
}

#[test]
fn loopback_auth_and_stream() {
    let runtime = tokio::runtime::Builder::new_multi_thread()
        .worker_threads(4)
        .enable_all()
        .build()
        .unwrap();
    runtime.block_on(async {
        let id = ServerIdentity::generate().expect("identity");
        let key = id.handshake_key();
        let (fp, secret) = key_parts(&key).unwrap();
        assert_eq!(secret, id.hmac_secret);

        let server = Arc::new(Server {
            acceptor: TlsAcceptor::from(server_config(&id)),
            secret: id.hmac_secret,
            limiter: Mutex::new(RateLimiter::new()),
            started: Instant::now(),
            snapshots: vec!["\n".to_string(), "  {\"timestamp\":42}  \n".to_string()],
        });

        let checks = async {
            // The right key authenticates.
            let first = connect_and_auth(&server, &key).await.err();
            assert!(first.is_none(), "valid key should authenticate: {first:?}");

            // A malformed key fails before connecting.
            let err = connect_and_auth(&server, "FM1:AAAA").await.err().expect("bad key should fail");
            assert_eq!(err, "Invalid Handshake Key format");

            // The right certificate with a wrong secret is denied by the server.
            let wrong_secret = encode_handshake_key(&fp, &[7u8; 32]);
            let err = connect_and_auth(&server, &wrong_secret).await.err().expect("wrong secret");
            assert_eq!(err, "Authentication denied \u{2014} verify the Handshake Key");

            // A key pinning another certificate refuses this server.
            let other_pin = encode_handshake_key(&[1u8; 32], &secret);
            assert!(connect_and_auth(&server, &other_pin).await.is_err(), "pin mismatch should fail");

            // A snapshot streams across, trimmed, blank lines skipped.
            let got = first_snapshot(&server, &key).await.expect("snapshot");
            assert_eq!(got, "{\"timestamp\":42}");
            let v: serde_json::Value = serde_json::from_str(&got).unwrap();
            assert_eq!(v["timestamp"], 42, "snapshot should round-trip");
        };
        tokio::time::timeout(Duration::from_secs(15), checks)
            .await
            .expect("timed out waiting for snapshot");
    });
}
