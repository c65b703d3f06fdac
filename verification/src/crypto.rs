//! The outside codecs and digests the protocol and the updater rely on:
//! standard Base64 (`base64`), SHA-256 (`sha2`) and HMAC-SHA256 (`hmac`).
//! Each wrapper makes one call; what is known of its result is stated over
//! the names below.

use vstd::prelude::*;
use base64::Engine;
use hmac::Mac;
use sha2::Digest;

verus! {

/// The standard padded Base64 text of `data` (RFC 4648, `+`/`/`, `=`).
pub uninterp spec fn base64_encoding(data: Seq<u8>) -> Seq<char>;

/// The bytes that the standard padded Base64 text `text` decodes to, or
/// `None` when `text` is not canonical standard Base64.
pub uninterp spec fn base64_decoding(text: Seq<char>) -> Option<Seq<u8>>;

/// The SHA-256 digest of `data`.
pub uninterp spec fn sha256_digest(data: Seq<u8>) -> Seq<u8>;

/// HMAC-SHA256 of `msg` under `key`.
pub uninterp spec fn hmac_sha256(key: Seq<u8>, msg: Seq<u8>) -> Seq<u8>;

/// A character of the standard Base64 alphabet or its padding.
pub open spec fn is_base64_char(c: char) -> bool {
    ||| 'A' <= c <= 'Z'
    ||| 'a' <= c <= 'z'
    ||| '0' <= c <= '9'
    ||| c == '+'
    ||| c == '/'
    ||| c == '='
}

/// `base64::engine::general_purpose::STANDARD.encode`. Claimed: the text is
/// the named encoding of `data`, consists of alphabet and padding characters
/// only, and decodes back to `data` (the crate documents the round trip).
#[verifier::external_body]
pub(crate) fn base64_encode(data: &[u8]) -> (s: String)
    ensures
        s@ == base64_encoding(data@),
        base64_decoding(s@) == Some(data@),
        forall|i: int| 0 <= i < s@.len() ==> is_base64_char(#[trigger] s@[i]),
{
    base64::engine::general_purpose::STANDARD.encode(data)
}

/// The message of the `base64::DecodeError` that decoding `text` reports
/// (its `Display` text).
pub uninterp spec fn base64_error_text(text: Seq<char>) -> Seq<char>;

/// `base64::engine::general_purpose::STANDARD.decode`, its error given as
/// its message. Claimed: the result is the named decoding of the text, and
/// an error comes exactly when there is none, with the named message.
#[verifier::external_body]
pub(crate) fn base64_decode(text: &str) -> (r: Result<Vec<u8>, String>)
    ensures
        match r {
            Ok(v) => base64_decoding(text@) == Some(v@),
            Err(e) => base64_decoding(text@) is None && e@ == base64_error_text(text@),
        },
{
    match base64::engine::general_purpose::STANDARD.decode(text) {
        Ok(v) => Ok(v),
        Err(e) => Err(e.to_string()),
    }
}

/// `sha2::Sha256` over `data`. Claimed: the named digest, 32 bytes long.
#[verifier::external_body]
pub(crate) fn sha256(data: &[u8]) -> (r: [u8; 32])
    ensures
        r@ == sha256_digest(data@),
        r@.len() == 32,
{
    let mut h = sha2::Sha256::new();
    h.update(data);
    h.finalize().into()
}

/// `hmac::Hmac<Sha256>` keyed with `secret` over `nonce` (a key of any length
/// is accepted, so the constructor never fails). Claimed: the named MAC,
/// 32 bytes long.
#[verifier::external_body]
pub fn compute_hmac(nonce: &[u8], secret: &[u8]) -> (r: Vec<u8>)
    ensures
        r@ == hmac_sha256(secret@, nonce@),
        r@.len() == 32,
{
    let mut mac = <hmac::Hmac<sha2::Sha256> as hmac::Mac>::new_from_slice(secret).expect("any key length");
    mac.update(nonce);
    mac.finalize().into_bytes().to_vec()
}

} // verus!
