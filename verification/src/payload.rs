//! The widget payload carried inside the installer: whether one is bundled,
//! its recorded unpacked size, and unpacking it. The installer carries the
//! widget gzip-compressed; a development build carries nothing.

use vstd::prelude::*;
use std::io::Read;
use crate::text::{chars_of, parse_usize, parse_usize_exec};

verus! {

/// Whether a real payload was embedded (a development build embeds none,
/// and then the installer refuses to install).
pub fn is_bundled(payload: &[u8]) -> (r: bool)
    ensures
        r == (payload@.len() > 0),
{
    payload.len() > 0
}

/// The unpacked size recorded at build time; 0 when it is not a number.
pub fn raw_len(recorded: &str) -> (r: usize)
    ensures
        r == match parse_usize(recorded@) {
            Some(n) => n,
            None => 0,
        },
{
    let cs = chars_of(recorded);
    match parse_usize_exec(cs.as_slice()) {
        Some(n) => n,
        None => 0,
    }
}

/// The bytes `flate2::read::GzDecoder` inflates from `data` (the first
/// gzip member), or nothing when it reports an error.
pub uninterp spec fn gzip_inflated(data: Seq<u8>) -> Option<Seq<u8>>;

/// The view of optional bytes.
pub open spec fn opt_bytes(o: Option<Vec<u8>>) -> Option<Seq<u8>> {
    match o {
        Some(v) => Some(v@),
        None => None,
    }
}

/// `flate2::read::GzDecoder::new(data).read_to_end`. Claimed: the named
/// inflation of `data`; an error gives nothing.
#[verifier::external_body]
fn gunzip(data: &[u8]) -> (r: Option<Vec<u8>>)
    ensures
        opt_bytes(r) == gzip_inflated(data@),
{
    let mut out = Vec::new();
    match flate2::read::GzDecoder::new(data).read_to_end(&mut out) {
        Ok(_) => Some(out),
        Err(_) => None,
    }
}

/// The widget exe unpacked from the embedded payload; nothing when the
/// payload does not inflate.
pub fn flux_exe(payload: &[u8]) -> (r: Option<Vec<u8>>)
    ensures
        opt_bytes(r) == gzip_inflated(payload@),
{
    gunzip(payload)
}

} // verus!
