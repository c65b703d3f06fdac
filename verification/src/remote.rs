//! The remote-monitoring service's decisions: certificate pinning, the
//! server's handshake verdict with its rate limiting, the lines of the
//! handshake, the client's handshake checks, and which device clients to
//! stop and start when the configured devices change.

use vstd::prelude::*;
use crate::crypto::{base64_decode, base64_decoding, base64_encode, base64_encoding, base64_error_text, sha256_digest};
use crate::protocol::{
    cert_fingerprint, decode_handshake_key, decode_key, fixed_time_eq, server_accepts, verify_auth,
};
use crate::ratelimit::{after_failure, RateLimiter, LOCKOUT_MS};
use crate::text::{chars_of, str_eq, string_of, trim, trim_vec, opt_view};
use crate::json::{fields_view, json_field, json_object, json_object_text, json_string_field};

verus! {

// ---------------------------------------------------------------------
// Certificate pinning

/// A client pinned to the fingerprint in `key` accepts certificate `cert`
/// exactly when the certificate's SHA-256 is that fingerprint.
pub open spec fn pin_accepts(cert: Seq<u8>, key: Seq<char>) -> bool {
    match decode_key(key) {
        Some((fp, _)) => sha256_digest(cert) == fp,
        None => false,
    }
}

/// Whether a presented certificate matches the pinned fingerprint.
pub fn cert_matches_pin(cert_der: &[u8], expected: &[u8; 32]) -> (r: bool)
    ensures
        r == (sha256_digest(cert_der@) == expected@),
{
    let actual = cert_fingerprint(cert_der);
    fixed_time_eq(&actual, expected)
}

/// A client holding a machine's handshake key accepts that machine's own
/// certificate.
pub proof fn law_own_certificate_pinned(cert: Seq<u8>, secret: Seq<u8>, key: Seq<char>)
    requires
        decode_key(key) == Some((sha256_digest(cert), secret)),
    ensures
        pin_accepts(cert, key),
{
}

// ---------------------------------------------------------------------
// Server side of the handshake

/// Whether a connection from `ip` is served at all (it is not locked out).
pub fn accepts_connection(limiter: &RateLimiter, ip: &str, now_ms: u64) -> (r: bool)
    requires
        limiter.wf(),
    ensures
        r == !crate::ratelimit::locked(limiter.view(), ip@, now_ms),
{
    !limiter.is_locked_out(ip, now_ms)
}

/// Judge a client's answer to the challenge: accepted when it is an `auth`
/// message carrying the HMAC of the nonce under this server's secret. An
/// acceptance clears the address's failures; a refusal counts one.
pub fn authenticate(
    limiter: &mut RateLimiter,
    ip: &str,
    now_ms: u64,
    msg_type: Option<&str>,
    provided: &[u8],
    nonce: &[u8],
    secret: &[u8; 32],
) -> (r: bool)
    requires
        old(limiter).wf(),
        now_ms <= u64::MAX - LOCKOUT_MS,
        old(limiter).view().contains_key(ip@) ==> old(limiter).view()[ip@].0 < u32::MAX,
    ensures
        final(limiter).wf(),
        r == server_accepts(
            match msg_type {
                Some(t) => Some(t@),
                None => None,
            },
            provided@,
            nonce@,
            secret@,
        ),
        r ==> final(limiter).view() == old(limiter).view().remove(ip@),
        !r ==> final(limiter).view() == after_failure(old(limiter).view(), ip@, now_ms),
{
    let ok = verify_auth(msg_type, provided, nonce, secret);
    if ok {
        limiter.reset_failures(ip);
    } else {
        limiter.record_failure(ip, now_ms);
    }
    ok
}

/// The fields of the challenge: its type and the Base64 nonce.
pub open spec fn challenge_fields(nonce: Seq<u8>) -> Seq<(Seq<char>, Option<Seq<char>>)> {
    seq![("type"@, Some("challenge"@)), ("nonce"@, Some(base64_encoding(nonce)))]
}

/// The challenge line: the JSON object `{"type": "challenge", "nonce":
/// <Base64>}` and a line break.
pub fn challenge_line(nonce: &[u8]) -> (r: String)
    ensures
        r@ == json_object_text(challenge_fields(nonce@)) + "\n"@,
{
    let mut fields: Vec<(String, Option<String>)> = Vec::new();
    fields.push(("type".to_owned(), Some("challenge".to_owned())));
    fields.push(("nonce".to_owned(), Some(base64_encode(nonce))));
    assert(fields_view(fields@) =~= challenge_fields(nonce@));
    let mut s = json_object(fields);
    s.append("\n");
    s
}

/// The fields of the client's answer: its type and the Base64 MAC.
pub open spec fn auth_fields(mac: Seq<u8>) -> Seq<(Seq<char>, Option<Seq<char>>)> {
    seq![("type"@, Some("auth"@)), ("hmac"@, Some(base64_encoding(mac)))]
}

/// The client's answer line: the JSON object `{"type": "auth", "hmac":
/// <Base64>}` and a line break.
pub fn auth_line(mac: &[u8]) -> (r: String)
    ensures
        r@ == json_object_text(auth_fields(mac@)) + "\n"@,
{
    let mut fields: Vec<(String, Option<String>)> = Vec::new();
    fields.push(("type".to_owned(), Some("auth".to_owned())));
    fields.push(("hmac".to_owned(), Some(base64_encode(mac))));
    assert(fields_view(fields@) =~= auth_fields(mac@));
    let mut s = json_object(fields);
    s.append("\n");
    s
}

/// The server's verdict line.
pub fn verdict_line(accepted: bool) -> (r: &'static str)
    ensures
        r@ == if accepted {
            "{\"type\":\"ok\"}\n"@
        } else {
            "{\"type\":\"denied\"}\n"@
        },
{
    if accepted {
        "{\"type\":\"ok\"}\n"
    } else {
        "{\"type\":\"denied\"}\n"
    }
}

// ---------------------------------------------------------------------
// Reading the handshake's JSON lines

/// The text of an optional field, empty when it is missing.
pub open spec fn or_empty(o: Option<Seq<char>>) -> Seq<char> {
    match o {
        Some(t) => t,
        None => Seq::empty(),
    }
}

fn trimmed(line: &str) -> (r: String)
    ensures
        r@ == trim(line@),
{
    let cs = chars_of(line);
    let t = trim_vec(cs.as_slice());
    string_of(t.as_slice())
}

/// The client's answer as the server reads it, the line trimmed: nothing
/// when it is not JSON (the server then drops the connection); else its
/// `type` and the bytes of its `hmac` (none when the field is missing or
/// not Base64).
pub open spec fn auth_reply_of(line: Seq<char>) -> Option<(Option<Seq<char>>, Seq<u8>)> {
    let t = trim(line);
    match (json_string_field(t, "type"@), json_string_field(t, "hmac"@)) {
        (Ok(ty), Ok(h)) => Some(
            (
                ty,
                match base64_decoding(or_empty(h)) {
                    Some(v) => v,
                    None => Seq::empty(),
                },
            ),
        ),
        _ => None,
    }
}

pub fn auth_reply(line: &str) -> (r: Option<(Option<String>, Vec<u8>)>)
    ensures
        match r {
            Some((ty, bytes)) => auth_reply_of(line@) == Some((opt_view(ty), bytes@)),
            None => auth_reply_of(line@) is None,
        },
{
    let t = trimmed(line);
    let ty = match json_field(t.as_str(), "type") {
        Ok(x) => x,
        Err(_) => return None,
    };
    let h = match json_field(t.as_str(), "hmac") {
        Ok(x) => x,
        Err(_) => return None,
    };
    let text = match h {
        Some(x) => x,
        None => String::new(),
    };
    let bytes = match base64_decode(text.as_str()) {
        Ok(v) => v,
        Err(_) => Vec::new(),
    };
    Some((ty, bytes))
}

/// The challenge's nonce as the client reads it, the line trimmed: the
/// parser's message when it is not JSON; else its `nonce` (empty when
/// missing) decoded from Base64, or the decoder's message.
pub open spec fn challenge_nonce_of(line: Seq<char>) -> Result<Seq<u8>, Seq<char>> {
    match json_string_field(trim(line), "nonce"@) {
        Err(e) => Err(e),
        Ok(n) => match base64_decoding(or_empty(n)) {
            Some(v) => Ok(v),
            None => Err(base64_error_text(or_empty(n))),
        },
    }
}

pub fn challenge_nonce(line: &str) -> (r: Result<Vec<u8>, String>)
    ensures
        match r {
            Ok(v) => challenge_nonce_of(line@) == Ok::<Seq<u8>, Seq<char>>(v@),
            Err(e) => challenge_nonce_of(line@) == Err::<Seq<u8>, Seq<char>>(e@),
        },
{
    let t = trimmed(line);
    let n = match json_field(t.as_str(), "nonce") {
        Ok(x) => x,
        Err(e) => return Err(e),
    };
    let text = match n {
        Some(x) => x,
        None => String::new(),
    };
    base64_decode(text.as_str())
}

/// The server's verdict line as the client reads it, trimmed: the parser's
/// message when it is not JSON; else accepted exactly when its `type` is
/// `ok`.
pub fn read_verdict(line: &str) -> (r: Result<(), String>)
    ensures
        match json_string_field(trim(line@), "type"@) {
            Err(e) => r matches Err(m) && m@ == e,
            Ok(t) => (r is Ok <==> t == Some("ok"@)) && (r matches Err(m) ==> m@
                == "Authentication denied \u{2014} verify the Handshake Key"@),
        },
{
    let t = trimmed(line);
    match json_field(t.as_str(), "type") {
        Err(e) => Err(e),
        Ok(Some(ty)) => check_verdict(Some(ty.as_str())),
        Ok(None) => check_verdict(None),
    }
}

// ---------------------------------------------------------------------
// Client side of the handshake

/// The pinned fingerprint and the secret of a handshake key, or the error
/// shown for a malformed key.
pub fn key_parts(key: &str) -> (r: Result<([u8; 32], [u8; 32]), String>)
    ensures
        match r {
            Ok((fp, secret)) => decode_key(key@) == Some((fp@, secret@)),
            Err(e) => decode_key(key@) is None && e@ == "Invalid Handshake Key format"@,
        },
{
    match decode_handshake_key(key) {
        Some(p) => Ok(p),
        None => Err("Invalid Handshake Key format".to_owned()),
    }
}

/// A line the handshake waits for must arrive: zero bytes read means the
/// peer closed, reported with `missing`.
pub fn expect_line(bytes_read: usize, missing: &str) -> (r: Result<(), String>)
    ensures
        bytes_read == 0 ==> (r matches Err(e) && e@ == missing@),
        bytes_read != 0 ==> r is Ok,
{
    if bytes_read == 0 {
        Err(missing.to_owned())
    } else {
        Ok(())
    }
}

/// The server's verdict as the client reads it: its `type` must be `ok`.
pub fn check_verdict(msg_type: Option<&str>) -> (r: Result<(), String>)
    ensures
        r is Ok <==> opt_str_view(msg_type) == Some("ok"@),
        r matches Err(e) ==> e@ == "Authentication denied \u{2014} verify the Handshake Key"@,
{
    let ok = match msg_type {
        Some(t) => str_eq(t, "ok"),
        None => false,
    };
    if ok {
        Ok(())
    } else {
        Err("Authentication denied \u{2014} verify the Handshake Key".to_owned())
    }
}

/// The view of an optional string slice.
pub open spec fn opt_str_view(o: Option<&str>) -> Option<Seq<char>> {
    match o {
        Some(s) => Some(s@),
        None => None,
    }
}

/// How a one-shot connection test ended.
#[derive(Debug)]
pub enum TestOutcome {
    Connected,
    Failed(String),
    TimedOut,
}

/// The result event of a connection test: success with `Connected`, or the
/// failure's message (`Connection timed out` for a timeout).
pub fn test_result(outcome: TestOutcome) -> (r: (bool, String))
    ensures
        match outcome {
            TestOutcome::Connected => r.0 && r.1@ == "Connected"@,
            TestOutcome::Failed(e) => !r.0 && r.1@ == e@,
            TestOutcome::TimedOut => !r.0 && r.1@ == "Connection timed out"@,
        },
{
    match outcome {
        TestOutcome::Connected => (true, "Connected".to_owned()),
        TestOutcome::Failed(e) => (false, e),
        TestOutcome::TimedOut => (false, "Connection timed out".to_owned()),
    }
}

/// A line of the snapshot stream, trimmed; blank lines carry nothing.
pub fn stream_payload(line: &str) -> (r: Option<String>)
    ensures
        match r {
            Some(t) => t@ == trim(line@) && t@.len() > 0,
            None => trim(line@).len() == 0,
        },
{
    let cs = chars_of(line);
    let t = trim_vec(cs.as_slice());
    if t.len() == 0 {
        None
    } else {
        Some(string_of(t.as_slice()))
    }
}

// ---------------------------------------------------------------------
// The manager

/// What switching the sensor feed does to the server task.
#[derive(Debug, PartialEq, Eq, Structural)]
pub enum ServerAction {
    Start,
    Stop,
    Nothing,
}

/// Start the server when asked and not running; stop it when asked off and
/// running.
pub fn server_switch(running: bool, on: bool) -> (r: ServerAction)
    ensures
        r == if on && !running {
            ServerAction::Start
        } else if !on && running {
            ServerAction::Stop
        } else {
            ServerAction::Nothing
        },
{
    if on {
        if !running {
            ServerAction::Start
        } else {
            ServerAction::Nothing
        }
    } else if running {
        ServerAction::Stop
    } else {
        ServerAction::Nothing
    }
}

/// A device client's connection settings.
#[derive(Debug)]
pub struct ClientConfig {
    pub id: String,
    pub host: String,
    pub port: u16,
    pub key: String,
}

pub open spec fn same_config(a: ClientConfig, b: ClientConfig) -> bool {
    a.host@ == b.host@ && a.port == b.port && a.key@ == b.key@
}

/// The position of the device configured for `id`: the last one listed
/// with it.
pub open spec fn last_with_id(devs: Seq<ClientConfig>, id: Seq<char>) -> Option<int>
    decreases devs.len(),
{
    if devs.len() == 0 {
        None
    } else if devs.last().id@ == id {
        Some(devs.len() - 1)
    } else {
        last_with_id(devs.drop_last(), id)
    }
}

/// A running client is kept when a device is configured for its id with
/// the same host, port and key.
pub open spec fn keeps(devs: Seq<ClientConfig>, c: ClientConfig) -> bool {
    match last_with_id(devs, c.id@) {
        Some(i) => same_config(devs[i], c),
        None => false,
    }
}

/// Some running client with id `id` is kept.
pub open spec fn kept_id(running: Seq<ClientConfig>, devs: Seq<ClientConfig>, id: Seq<char>) -> bool {
    exists|j: int| 0 <= j < running.len() && running[j].id@ == id && keeps(devs, #[trigger] running[j])
}

/// The ids of the running clients that are stopped, in order.
pub open spec fn stopped_ids(running: Seq<ClientConfig>, devs: Seq<ClientConfig>) -> Seq<Seq<char>>
    decreases running.len(),
{
    if running.len() == 0 {
        Seq::empty()
    } else {
        let prev = stopped_ids(running.drop_last(), devs);
        if keeps(devs, running.last()) {
            prev
        } else {
            prev.push(running.last().id@)
        }
    }
}

/// The devices among the first `n` that get a new client: each id's last
/// device, when the id is not empty and no running client is kept for it.
pub open spec fn started_upto(running: Seq<ClientConfig>, devs: Seq<ClientConfig>, n: int) -> Seq<ClientConfig>
    decreases n,
{
    if n <= 0 {
        Seq::empty()
    } else {
        let prev = started_upto(running, devs, n - 1);
        let d = devs[n - 1];
        if d.id@.len() > 0 && last_with_id(devs, d.id@) == Some(n - 1) && !kept_id(
            running,
            devs,
            d.id@,
        ) {
            prev.push(d)
        } else {
            prev
        }
    }
}

/// The clients to stop and to start when the configured devices change.
#[derive(Debug)]
pub struct Reconcile {
    pub stop: Vec<String>,
    pub start: Vec<ClientConfig>,
}

fn last_with_id_exec(devs: &Vec<ClientConfig>, id: &str) -> (r: Option<usize>)
    ensures
        match r {
            Some(i) => i < devs@.len() && last_with_id(devs@, id@) == Some(i as int),
            None => last_with_id(devs@, id@) is None,
        },
{
    let mut n: usize = devs.len();
    assert(devs@.take(n as int) =~= devs@);
    while n > 0
        invariant
            n <= devs@.len(),
            last_with_id(devs@, id@) == last_with_id(devs@.take(n as int), id@),
        decreases n,
    {
        let ghost t = devs@.take(n as int);
        assert(t.drop_last() =~= devs@.take(n - 1));
        if str_eq(devs[n - 1].id.as_str(), id) {
            assert(t.last() == devs@[n - 1]);
            return Some(n - 1);
        }
        n = n - 1;
    }
    None
}

fn keeps_exec(devs: &Vec<ClientConfig>, c: &ClientConfig) -> (r: bool)
    ensures
        r == keeps(devs@, *c),
{
    match last_with_id_exec(devs, c.id.as_str()) {
        Some(i) => {
            let d = &devs[i];
            str_eq(d.host.as_str(), c.host.as_str()) && d.port == c.port && str_eq(
                d.key.as_str(),
                c.key.as_str(),
            )
        },
        None => false,
    }
}

fn kept_id_exec(running: &Vec<ClientConfig>, devs: &Vec<ClientConfig>, id: &str) -> (r: bool)
    ensures
        r == kept_id(running@, devs@, id@),
{
    let mut j: usize = 0;
    while j < running.len()
        invariant
            j <= running@.len(),
            forall|k: int|
                0 <= k < j ==> !(running@[k].id@ == id@ && keeps(devs@, #[trigger] running@[k])),
        decreases running@.len() - j,
    {
        if str_eq(running[j].id.as_str(), id) && keeps_exec(devs, &running[j]) {
            return true;
        }
        j = j + 1;
    }
    false
}

fn clone_config(c: &ClientConfig) -> (r: ClientConfig)
    ensures
        r == *c,
{
    ClientConfig { id: c.id.clone(), host: c.host.clone(), port: c.port, key: c.key.clone() }
}

/// Which clients to stop (their config is gone or changed) and which to
/// start (each configured id, once, that has no kept client).
pub fn reconcile_clients(running: &Vec<ClientConfig>, devices: &Vec<ClientConfig>) -> (r: Reconcile)
    ensures
        r.stop@.map_values(|s: String| s@) == stopped_ids(running@, devices@),
        r.start@ == started_upto(running@, devices@, devices@.len() as int),
{
    let mut stop: Vec<String> = Vec::new();
    let mut i: usize = 0;
    while i < running.len()
        invariant
            i <= running@.len(),
            stop@.map_values(|s: String| s@) == stopped_ids(running@.take(i as int), devices@),
        decreases running@.len() - i,
    {
        let ghost t = running@.take(i + 1);
        assert(t.drop_last() =~= running@.take(i as int));
        assert(t.last() == running@[i as int]);
        if !keeps_exec(devices, &running[i]) {
            let ghost before = stop@.map_values(|s: String| s@);
            stop.push(running[i].id.clone());
            assert(stop@.map_values(|s: String| s@) =~= before.push(running@[i as int].id@));
        }
        i = i + 1;
    }
    assert(running@.take(running@.len() as int) =~= running@);
    let mut start: Vec<ClientConfig> = Vec::new();
    let mut k: usize = 0;
    while k < devices.len()
        invariant
            k <= devices@.len(),
            start@ == started_upto(running@, devices@, k as int),
        decreases devices@.len() - k,
    {
        let d = &devices[k];
        if !d.id.as_str().is_empty() {
            let last = last_with_id_exec(devices, d.id.as_str());
            if last == Some(k) && !kept_id_exec(running, devices, d.id.as_str()) {
                start.push(clone_config(d));
            }
        }
        k = k + 1;
    }
    Reconcile { stop, start }
}

/// The clients left running after the stops.
pub open spec fn kept_clients(running: Seq<ClientConfig>, devs: Seq<ClientConfig>) -> Seq<ClientConfig> {
    running.filter(|c: ClientConfig| keeps(devs, c))
}

/// The clients running after reconciling: the kept ones, then the started
/// ones.
pub open spec fn after_reconcile(running: Seq<ClientConfig>, devs: Seq<ClientConfig>) -> Seq<ClientConfig> {
    kept_clients(running, devs) + started_upto(running, devs, devs.len() as int)
}

proof fn lemma_started_has(running: Seq<ClientConfig>, devs: Seq<ClientConfig>, n: int, i: int)
    requires
        0 <= i < n <= devs.len(),
        devs[i].id@.len() > 0,
        last_with_id(devs, devs[i].id@) == Some(i),
        !kept_id(running, devs, devs[i].id@),
    ensures
        started_upto(running, devs, n).contains(devs[i]),
    decreases n,
{
    if i < n - 1 {
        lemma_started_has(running, devs, n - 1, i);
        let prev = started_upto(running, devs, n - 1);
        let k = choose|k: int| 0 <= k < prev.len() && prev[k] == devs[i];
        assert(started_upto(running, devs, n)[k] == devs[i]);
    } else {
        let cur = started_upto(running, devs, n);
        assert(cur[cur.len() - 1] == devs[i]);
    }
}

proof fn lemma_started_sound(running: Seq<ClientConfig>, devs: Seq<ClientConfig>, n: int)
    requires
        0 <= n <= devs.len(),
    ensures
        forall|k: int|
            0 <= k < started_upto(running, devs, n).len() ==> exists|i: int|
                0 <= i < n && #[trigger] started_upto(running, devs, n)[k] == devs[i]
                    && last_with_id(devs, devs[i].id@) == Some(i) && !kept_id(
                    running,
                    devs,
                    devs[i].id@,
                ),
    decreases n,
{
    if n > 0 {
        lemma_started_sound(running, devs, n - 1);
        let prev = started_upto(running, devs, n - 1);
        let cur = started_upto(running, devs, n);
        assert forall|k: int| 0 <= k < cur.len() implies exists|i: int|
            0 <= i < n && #[trigger] cur[k] == devs[i] && last_with_id(devs, devs[i].id@) == Some(i)
                && !kept_id(running, devs, devs[i].id@) by {
            if k < prev.len() {
                assert(cur[k] == prev[k]);
                let i = choose|i: int|
                    0 <= i < n - 1 && #[trigger] prev[k] == devs[i] && last_with_id(devs, devs[i].id@)
                        == Some(i) && !kept_id(running, devs, devs[i].id@);
                assert(cur[k] == devs[i]);
            } else {
                assert(cur[k] == devs[n - 1]);
            }
        }
    }
}

/// After reconciling, every configured device with an id has a running
/// client with its host, port and key, and every running client matches
/// the device configured for its id; no id is both kept and restarted.
pub proof fn law_reconcile_matches_devices(running: Seq<ClientConfig>, devs: Seq<ClientConfig>)
    ensures
        forall|i: int|
            0 <= i < devs.len() && devs[i].id@.len() > 0 && last_with_id(devs, devs[i].id@) == Some(
                i,
            ) ==> exists|c: ClientConfig|
                #[trigger] after_reconcile(running, devs).contains(c) && c.id@ == devs[i].id@
                    && same_config(devs[i], c),
        forall|k: int|
            0 <= k < after_reconcile(running, devs).len() ==> keeps(
                devs,
                #[trigger] after_reconcile(running, devs)[k],
            ),
        forall|k: int|
            0 <= k < started_upto(running, devs, devs.len() as int).len() ==> !kept_id(
                running,
                devs,
                (#[trigger] started_upto(running, devs, devs.len() as int)[k]).id@,
            ),
{
    let kept = kept_clients(running, devs);
    let started = started_upto(running, devs, devs.len() as int);
    let all = after_reconcile(running, devs);
    lemma_started_sound(running, devs, devs.len() as int);
    assert forall|i: int|
        0 <= i < devs.len() && devs[i].id@.len() > 0 && last_with_id(devs, devs[i].id@) == Some(i)
            implies exists|c: ClientConfig|
        #[trigger] all.contains(c) && c.id@ == devs[i].id@ && same_config(devs[i], c) by {
        if kept_id(running, devs, devs[i].id@) {
            let j = choose|j: int|
                0 <= j < running.len() && running[j].id@ == devs[i].id@ && keeps(
                    devs,
                    #[trigger] running[j],
                );
            running.filter_lemma(|c: ClientConfig| keeps(devs, c));
            assert(kept.contains(running[j]));
            let m = choose|m: int| 0 <= m < kept.len() && kept[m] == running[j];
            assert(all[m] == running[j]);
            assert(all.contains(running[j]));
        } else {
            lemma_started_has(running, devs, devs.len() as int, i);
            let m = choose|m: int| 0 <= m < started.len() && started[m] == devs[i];
            assert(all[kept.len() + m] == devs[i]);
            assert(all.contains(devs[i]));
        }
    }
    assert forall|k: int| 0 <= k < all.len() implies keeps(devs, #[trigger] all[k]) by {
        running.filter_lemma(|c: ClientConfig| keeps(devs, c));
        if k < kept.len() {
            assert(all[k] == kept[k]);
        } else {
            let m = k - kept.len();
            assert(all[k] == started[m]);
            let i = choose|i: int|
                0 <= i < devs.len() && #[trigger] started[m] == devs[i] && last_with_id(
                    devs,
                    devs[i].id@,
                ) == Some(i) && !kept_id(running, devs, devs[i].id@);
            assert(same_config(devs[i], devs[i]));
        }
    }
    assert forall|k: int| 0 <= k < started.len() implies !kept_id(
        running,
        devs,
        (#[trigger] started[k]).id@,
    ) by {
        let i = choose|i: int|
            0 <= i < devs.len() && #[trigger] started[k] == devs[i] && last_with_id(devs, devs[i].id@)
                == Some(i) && !kept_id(running, devs, devs[i].id@);
    }
}

/// A running client that is not kept is among the stopped ones.
proof fn lemma_not_kept_stopped(running: Seq<ClientConfig>, devs: Seq<ClientConfig>, j: int)
    requires
        0 <= j < running.len(),
        !keeps(devs, running[j]),
    ensures
        stopped_ids(running, devs).contains(running[j].id@),
    decreases running.len(),
{
    let prev = stopped_ids(running.drop_last(), devs);
    if j == running.len() - 1 {
        assert(stopped_ids(running, devs) == prev.push(running[j].id@));
        assert(stopped_ids(running, devs)[prev.len() as int] == running[j].id@);
    } else {
        assert(running.drop_last()[j] == running[j]);
        lemma_not_kept_stopped(running.drop_last(), devs, j);
        let k = choose|k: int| 0 <= k < prev.len() && prev[k] == running[j].id@;
        if !keeps(devs, running.last()) {
            assert(stopped_ids(running, devs)[k] == running[j].id@);
        } else {
            assert(stopped_ids(running, devs)[k] == running[j].id@);
        }
    }
}

/// A client keeps running only while its device is configured with the
/// same host, port and key: a client whose device is gone, or whose host,
/// port or key changed (a new handshake key pasted for the same device),
/// is stopped; afterwards every running client has exactly the host, port
/// and key of the device configured for its id, and every configured device
/// has a running client with its host, port and key.
pub proof fn law_changed_device_restarts(running: Seq<ClientConfig>, devs: Seq<ClientConfig>)
    ensures
        forall|j: int|
            0 <= j < running.len() && match #[trigger] last_with_id(devs, running[j].id@) {
                Some(i) => devs[i].host@ != running[j].host@ || devs[i].port != running[j].port
                    || devs[i].key@ != running[j].key@,
                None => true,
            } ==> stopped_ids(running, devs).contains(running[j].id@),
        forall|k: int|
            0 <= k < after_reconcile(running, devs).len() ==> match last_with_id(
                devs,
                (#[trigger] after_reconcile(running, devs)[k]).id@,
            ) {
                Some(i) => devs[i].host@ == after_reconcile(running, devs)[k].host@ && devs[i].port
                    == after_reconcile(running, devs)[k].port && devs[i].key@ == after_reconcile(
                    running,
                    devs,
                )[k].key@,
                None => false,
            },
        forall|i: int|
            0 <= i < devs.len() && devs[i].id@.len() > 0 && last_with_id(devs, devs[i].id@) == Some(
                i,
            ) ==> exists|c: ClientConfig|
                #[trigger] after_reconcile(running, devs).contains(c) && c.id@ == devs[i].id@
                    && c.host@ == devs[i].host@ && c.port == devs[i].port && c.key@ == devs[i].key@,
{
    law_reconcile_matches_devices(running, devs);
    assert forall|j: int|
        0 <= j < running.len() && match #[trigger] last_with_id(devs, running[j].id@) {
            Some(i) => devs[i].host@ != running[j].host@ || devs[i].port != running[j].port
                || devs[i].key@ != running[j].key@,
            None => true,
        } implies stopped_ids(running, devs).contains(running[j].id@) by {
        lemma_not_kept_stopped(running, devs, j);
    }
}

} // verus!
