//! Wire protocol for remote monitoring: the user-facing handshake key
//! (`FM1:` followed by the Base64 of a certificate fingerprint and an HMAC
//! secret), the HMAC challenge/response, and constant-time comparison.

use vstd::prelude::*;
use crate::crypto::{
    base64_decode, base64_decoding, base64_encode, base64_encoding, compute_hmac, hmac_sha256,
    is_base64_char, sha256, sha256_digest,
};
use crate::text::{
    chars_of, is_ws, lemma_lead_ws_unique, lemma_trail_ws_unique, seq_eq, slice_range,
    starts_with, starts_with_seq, string_of, trim, trim_end, trim_start, trim_vec,
};

verus! {

pub const DEFAULT_PORT: u16 = 5199;
/// The prefix of every handshake key.
pub const KEY_PREFIX: &'static str = "FM1:";
/// Reconnect delay after a dropped connection, in milliseconds.
pub const CLIENT_RECONNECT_DELAY_MS: u64 = 3000;
/// A client reconnects when no snapshot arrives within this many seconds.
pub const WATCHDOG_SECONDS: u64 = 30;

/// The key prefix `FM1:`.
pub open spec fn key_prefix() -> Seq<char> {
    seq!['F', 'M', '1', ':']
}

fn key_prefix_vec() -> (r: Vec<char>)
    ensures
        r@ == key_prefix(),
{
    let r = vec!['F', 'M', '1', ':'];
    assert(r@ =~= key_prefix());
    r
}

/// The handshake key for a fingerprint and a secret.
pub open spec fn key_text(fp: Seq<u8>, secret: Seq<u8>) -> Seq<char> {
    key_prefix() + base64_encoding(fp + secret)
}

/// What a handshake key decodes to: the prefix is stripped, the rest is
/// trimmed and Base64-decoded, and exactly 64 bytes split into the
/// fingerprint and the secret.
pub open spec fn decode_key(key: Seq<char>) -> Option<(Seq<u8>, Seq<u8>)> {
    if !starts_with(key, key_prefix()) {
        None
    } else {
        match base64_decoding(trim(key.skip(4))) {
            Some(raw) => if raw.len() == 64 {
                Some((raw.take(32), raw.skip(32)))
            } else {
                None
            },
            None => None,
        }
    }
}

/// A sequence without whitespace at its ends is its own trim.
pub proof fn lemma_trim_no_ws(s: Seq<char>)
    requires
        forall|i: int| 0 <= i < s.len() ==> !is_ws(#[trigger] s[i]),
    ensures
        trim(s) == s,
{
    lemma_lead_ws_unique(s, 0);
    assert(trim_start(s) =~= s);
    lemma_trail_ws_unique(s, 0);
    assert(trim_end(s) =~= s);
}

/// Encode a certificate fingerprint and an HMAC secret into the handshake
/// key. The key decodes back to the same pair.
pub fn encode_handshake_key(cert_fingerprint: &[u8; 32], hmac_secret: &[u8; 32]) -> (r: String)
    ensures
        r@ == key_text(cert_fingerprint@, hmac_secret@),
        decode_key(r@) == Some((cert_fingerprint@, hmac_secret@)),
{
    let mut combined: Vec<u8> = Vec::new();
    let mut i: usize = 0;
    while i < 32
        invariant
            i <= 32,
            combined@ == cert_fingerprint@.take(i as int),
        decreases 32 - i,
    {
        combined.push(cert_fingerprint[i]);
        i = i + 1;
        assert(combined@ =~= cert_fingerprint@.take(i as int));
    }
    let mut j: usize = 0;
    while j < 32
        invariant
            j <= 32,
            combined@ == cert_fingerprint@ + hmac_secret@.take(j as int),
        decreases 32 - j,
    {
        combined.push(hmac_secret[j]);
        j = j + 1;
        assert(combined@ =~= cert_fingerprint@ + hmac_secret@.take(j as int));
    }
    assert(cert_fingerprint@.take(32) =~= cert_fingerprint@);
    assert(hmac_secret@.take(32) =~= hmac_secret@);
    let body = base64_encode(combined.as_slice());
    let mut text = string_of(key_prefix_vec().as_slice());
    proof {
        let k = key_text(cert_fingerprint@, hmac_secret@);
        let enc = base64_encoding(combined@);
        assert(k.skip(4) =~= enc);
        assert(k.subrange(0, 4) =~= key_prefix());
        assert forall|i: int| 0 <= i < enc.len() implies !is_ws(#[trigger] enc[i]) by {
            assert(is_base64_char(body@[i]));
        }
        lemma_trim_no_ws(enc);
        let raw = combined@;
        assert(raw.take(32) =~= cert_fingerprint@);
        assert(raw.skip(32) =~= hmac_secret@);
    }
    text.append(body.as_str());
    text
}

/// Decode a handshake key into (certificate fingerprint, HMAC secret), or
/// `None` when it is malformed.
pub fn decode_handshake_key(key: &str) -> (r: Option<([u8; 32], [u8; 32])>)
    ensures
        match r {
            Some((fp, secret)) => decode_key(key@) == Some((fp@, secret@)),
            None => decode_key(key@) is None,
        },
{
    let k = chars_of(key);
    let pre = key_prefix_vec();
    if !starts_with_seq(k.as_slice(), pre.as_slice()) {
        return None;
    }
    let rest = slice_range(k.as_slice(), 4, k.len());
    let body = trim_vec(rest.as_slice());
    let body_text = string_of(body.as_slice());
    assert(rest@ =~= key@.skip(4));
    let raw = match base64_decode(body_text.as_str()) {
        Ok(v) => v,
        Err(_) => return None,
    };
    if raw.len() != 64 {
        return None;
    }
    let mut fp = [0u8; 32];
    let mut secret = [0u8; 32];
    let mut i: usize = 0;
    while i < 32
        invariant
            i <= 32,
            raw@.len() == 64,
            fp@.len() == 32,
            secret@.len() == 32,
            forall|j: int| 0 <= j < i ==> fp@[j] == raw@[j],
            forall|j: int| 0 <= j < i ==> secret@[j] == raw@[j + 32],
        decreases 32 - i,
    {
        fp[i] = raw[i];
        secret[i] = raw[i + 32];
        i = i + 1;
    }
    assert(fp@ =~= raw@.take(32));
    assert(secret@ =~= raw@.skip(32));
    Some((fp, secret))
}

/// Constant-time comparison of two byte slices: equal lengths and equal
/// bytes. Every byte pair is examined, whatever the contents.
pub fn fixed_time_eq(a: &[u8], b: &[u8]) -> (r: bool)
    ensures
        r == (a@ == b@),
{
    if a.len() != b.len() {
        return false;
    }
    let mut diff: u8 = 0;
    let mut i: usize = 0;
    while i < a.len()
        invariant
            a@.len() == b@.len(),
            i <= a@.len(),
            (diff == 0) == (forall|j: int| 0 <= j < i ==> a@[j] == b@[j]),
        decreases a@.len() - i,
    {
        let x = a[i];
        let y = b[i];
        let nd = diff | (x ^ y);
        assert(((diff | (x ^ y)) == 0) == (diff == 0 && x == y)) by (bit_vector);
        diff = nd;
        i = i + 1;
    }
    assert((diff == 0) == (a@ =~= b@));
    diff == 0
}

/// The SHA-256 fingerprint of a certificate's DER bytes.
pub fn cert_fingerprint(der: &[u8]) -> (r: [u8; 32])
    ensures
        r@ == sha256_digest(der@),
{
    sha256(der)
}

/// What a key holder answers to a challenge: the HMAC of the nonce under the
/// secret carried by the key, or `None` for a malformed key.
pub open spec fn client_proof(key: Seq<char>, nonce: Seq<u8>) -> Option<Seq<u8>> {
    match decode_key(key) {
        Some((_fp, secret)) => Some(hmac_sha256(secret, nonce)),
        None => None,
    }
}

/// The server accepts a response when its type is `auth` and its MAC equals
/// the HMAC of the nonce under the server's secret.
pub open spec fn server_accepts(
    msg_type: Option<Seq<char>>,
    provided: Seq<u8>,
    nonce: Seq<u8>,
    secret: Seq<u8>,
) -> bool {
    &&& msg_type == Some(seq!['a', 'u', 't', 'h'])
    &&& provided == hmac_sha256(secret, nonce)
}

/// The client side of the challenge: decode the key and MAC the nonce.
pub fn auth_response(key: &str, nonce: &[u8]) -> (r: Option<Vec<u8>>)
    ensures
        match r {
            Some(v) => client_proof(key@, nonce@) == Some(v@),
            None => client_proof(key@, nonce@) is None,
        },
{
    match decode_handshake_key(key) {
        Some((_fp, secret)) => Some(compute_hmac(nonce, &secret)),
        None => None,
    }
}

/// The server side of the challenge: the response's `type` field (if any)
/// and the decoded MAC it carries, checked against this server's secret.
pub fn verify_auth(msg_type: Option<&str>, provided: &[u8], nonce: &[u8], secret: &[u8; 32]) -> (r: bool)
    ensures
        r == server_accepts(
            match msg_type {
                Some(t) => Some(t@),
                None => None,
            },
            provided@,
            nonce@,
            secret@,
        ),
{
    let expected = compute_hmac(nonce, secret);
    let type_ok = match msg_type {
        Some(t) => {
            let tv = chars_of(t);
            let want = vec!['a', 'u', 't', 'h'];
            let ok = seq_eq(tv.as_slice(), want.as_slice());
            assert(want@ =~= seq!['a', 'u', 't', 'h']);
            ok
        },
        None => false,
    };
    let mac_ok = fixed_time_eq(provided, expected.as_slice());
    type_ok && mac_ok
}

/// A holder of a well-formed key, answering with its MAC, is accepted by a
/// server whose secret is the one the key carries.
pub proof fn law_key_holder_authenticates(key: Seq<char>, nonce: Seq<u8>, server_secret: Seq<u8>)
    requires
        decode_key(key) matches Some((_fp, s)) && s == server_secret,
    ensures
        client_proof(key, nonce) matches Some(mac) && server_accepts(
            Some(seq!['a', 'u', 't', 'h']),
            mac,
            nonce,
            server_secret,
        ),
{
}

/// A malformed key yields no response at all, so it can never authenticate.
pub proof fn law_malformed_key_has_no_response(key: Seq<char>, nonce: Seq<u8>)
    requires
        decode_key(key) is None,
    ensures
        client_proof(key, nonce) is None,
{
}

} // verus!
