//! This machine's server identity: a self-signed certificate, its private
//! key and an HMAC secret. The identity is stored as three Base64 fields and
//! published to other machines as the handshake key.

use vstd::prelude::*;
use rand::RngCore;
use crate::crypto::{base64_decode, base64_decoding, base64_encode, base64_encoding, sha256_digest};
use crate::protocol::{cert_fingerprint, decode_key, encode_handshake_key, key_text};

verus! {

/// A self-signed certificate, its private key and the HMAC secret used to
/// serve the sensor feed.
#[derive(Debug)]
pub struct ServerIdentity {
    pub cert_der: Vec<u8>,
    pub key_der: Vec<u8>,
    pub hmac_secret: [u8; 32],
}

/// The persisted form: each part as standard Base64 text.
#[derive(Debug)]
pub struct StoredIdentity {
    pub cert_der_b64: String,
    pub key_der_b64: String,
    pub hmac_secret_b64: String,
}

/// What three stored fields decode to: all three must be Base64 and the
/// secret exactly 32 bytes.
pub open spec fn decode_stored(c: Seq<char>, k: Seq<char>, s: Seq<char>) -> Option<
    (Seq<u8>, Seq<u8>, Seq<u8>),
> {
    match (base64_decoding(c), base64_decoding(k), base64_decoding(s)) {
        (Some(cd), Some(kd), Some(sd)) => if sd.len() == 32 {
            Some((cd, kd, sd))
        } else {
            None
        },
        _ => None,
    }
}

impl ServerIdentity {
    /// The user-facing handshake key others use to connect to this machine:
    /// the SHA-256 fingerprint of the certificate and the HMAC secret.
    pub fn handshake_key(&self) -> (r: String)
        ensures
            r@ == key_text(sha256_digest(self.cert_der@), self.hmac_secret@),
            decode_key(r@) == Some((sha256_digest(self.cert_der@), self.hmac_secret@)),
    {
        let fp = cert_fingerprint(self.cert_der.as_slice());
        encode_handshake_key(&fp, &self.hmac_secret)
    }

    /// Rebuild an identity from its stored fields, or `None` if any field is
    /// not Base64 or the secret is not 32 bytes.
    pub fn from_stored(s: &StoredIdentity) -> (r: Option<Self>)
        ensures
            match r {
                Some(id) => decode_stored(
                    s.cert_der_b64@,
                    s.key_der_b64@,
                    s.hmac_secret_b64@,
                ) == Some((id.cert_der@, id.key_der@, id.hmac_secret@)),
                None => decode_stored(s.cert_der_b64@, s.key_der_b64@, s.hmac_secret_b64@) is None,
            },
    {
        let cert_der = match base64_decode(s.cert_der_b64.as_str()) {
            Ok(v) => v,
            Err(_) => return None,
        };
        let key_der = match base64_decode(s.key_der_b64.as_str()) {
            Ok(v) => v,
            Err(_) => return None,
        };
        let secret = match base64_decode(s.hmac_secret_b64.as_str()) {
            Ok(v) => v,
            Err(_) => return None,
        };
        if secret.len() != 32 {
            return None;
        }
        let mut hmac_secret = [0u8; 32];
        let mut i: usize = 0;
        while i < 32
            invariant
                i <= 32,
                secret@.len() == 32,
                hmac_secret@.len() == 32,
                forall|j: int| 0 <= j < i ==> hmac_secret@[j] == secret@[j],
            decreases 32 - i,
        {
            hmac_secret[i] = secret[i];
            i = i + 1;
        }
        assert(hmac_secret@ =~= secret@);
        Some(ServerIdentity { cert_der, key_der, hmac_secret })
    }

    /// The stored form of this identity; it decodes back to this identity.
    pub fn to_stored(&self) -> (r: StoredIdentity)
        ensures
            r.cert_der_b64@ == base64_encoding(self.cert_der@),
            r.key_der_b64@ == base64_encoding(self.key_der@),
            r.hmac_secret_b64@ == base64_encoding(self.hmac_secret@),
            decode_stored(r.cert_der_b64@, r.key_der_b64@, r.hmac_secret_b64@) == Some(
                (self.cert_der@, self.key_der@, self.hmac_secret@),
            ),
    {
        StoredIdentity {
            cert_der_b64: base64_encode(self.cert_der.as_slice()),
            key_der_b64: base64_encode(self.key_der.as_slice()),
            hmac_secret_b64: base64_encode(&self.hmac_secret),
        }
    }
}

/// The file the identity is kept in, inside the settings directory.
pub open spec fn identity_file() -> Seq<char> {
    "remote_identity.json"@
}

/// `base` and `name` joined with the path separator `sep`, unless `base` is
/// empty or already ends with `sep` or `/`.
pub open spec fn joined(base: Seq<char>, name: Seq<char>, sep: char) -> Seq<char> {
    if base.len() == 0 || base.last() == sep || base.last() == '/' {
        base + name
    } else {
        base + seq![sep] + name
    }
}

fn join_with(base: String, name: &str, sep: char) -> (r: String)
    ensures
        r@ == joined(base@, name@, sep),
{
    let b = crate::text::chars_of(base.as_str());
    let n = b.len();
    let mut out = base;
    if !(n == 0 || b[n - 1] == sep || b[n - 1] == '/') {
        let mut sv: Vec<char> = Vec::new();
        sv.push(sep);
        let ss = crate::text::string_of(sv.as_slice());
        out.append(ss.as_str());
    }
    out.append(name);
    assert(out@ =~= joined(b@, name@, sep));
    out
}

/// The identity file's path given the settings directory (the working
/// directory when there is none) and the platform's path separator.
pub fn identity_path(config_dir: Option<String>, sep: char) -> (r: String)
    ensures
        r@ == joined(
            match config_dir {
                Some(d) => d@,
                None => "."@,
            },
            identity_file(),
            sep,
        ),
{
    let base = match config_dir {
        Some(d) => d,
        None => ".".to_owned(),
    };
    proof {
        reveal_strlit("remote_identity.json");
    }
    join_with(base, "remote_identity.json", sep)
}

/// Where the identity file is, given the user's configuration folder (none
/// when the system names none) and the path separator.
pub open spec fn identity_location(base: Option<Seq<char>>, sep: char) -> Seq<char> {
    match base {
        Some(b) => joined(joined(b, "Flux"@, sep), identity_file(), sep),
        None => joined("."@, identity_file(), sep),
    }
}

/// The identity file's path for a user configuration folder (none when the
/// system names none) and a path separator: the file in the `Flux` folder
/// there, or in the working directory.
pub fn identity_location_for(config_dir: Option<String>, sep: char) -> (r: String)
    ensures
        r@ == identity_location(crate::text::opt_view(config_dir), sep),
{
    let dir = match config_dir {
        Some(b) => Some(join_with(b, "Flux", sep)),
        None => None,
    };
    identity_path(dir, sep)
}

/// A stored identity loads back unchanged: the three Base64 fields the
/// stored form holds decode to the certificate, the key and the secret, so
/// the handshake key stays the same across restarts.
pub proof fn law_stored_identity_reloads(cert: Seq<u8>, key: Seq<u8>, secret: Seq<u8>)
    requires
        secret.len() == 32,
        base64_decoding(base64_encoding(cert)) == Some(cert),
        base64_decoding(base64_encoding(key)) == Some(key),
        base64_decoding(base64_encoding(secret)) == Some(secret),
    ensures
        decode_stored(base64_encoding(cert), base64_encoding(key), base64_encoding(secret)) == Some(
            (cert, key, secret),
        ),
{
}

/// `directories::BaseDirs::new()`'s `config_dir` (the roaming application
/// data folder on Windows), as text. It depends on the user's environment:
/// nothing is claimed of it.
#[verifier::external_body]
fn user_config_dir() -> (r: Option<String>) {
    match directories::BaseDirs::new() {
        Some(d) => Some(d.config_dir().to_string_lossy().into_owned()),
        None => None,
    }
}

/// `std::path::MAIN_SEPARATOR`. It depends on the platform: nothing is
/// claimed of it.
#[verifier::external_body]
fn path_separator() -> (r: char) {
    std::path::MAIN_SEPARATOR
}

impl ServerIdentity {
    /// Where the identity is kept: `remote_identity.json` in Flux's settings
    /// folder, `Flux` in the user's configuration folder (`%APPDATA%\Flux`
    /// on Windows); in the working directory when the system names no
    /// configuration folder.
    pub fn default_path() -> (r: String)
        ensures
            exists|base: Option<Seq<char>>, sep: char| r@ == identity_location(base, sep),
    {
        let sep = path_separator();
        let base = user_config_dir();
        let ghost bv = crate::text::opt_view(base);
        let r = identity_location_for(base, sep);
        assert(r@ == identity_location(bv, sep));
        r
    }

    /// An identity from a new certificate, its key and a secret.
    pub fn from_parts(cert_der: Vec<u8>, key_der: Vec<u8>, hmac_secret: [u8; 32]) -> (r: Self)
        ensures
            r.cert_der@ == cert_der@,
            r.key_der@ == key_der@,
            r.hmac_secret@ == hmac_secret@,
    {
        ServerIdentity { cert_der, key_der, hmac_secret }
    }
}

/// 32 bytes from `rand::thread_rng().fill_bytes`. They come from a random
/// generator: nothing is claimed but their number.
#[verifier::external_body]
fn random_secret() -> (r: [u8; 32])
    ensures
        r@.len() == 32,
{
    let mut s = [0u8; 32];
    rand::thread_rng().fill_bytes(&mut s);
    s
}

/// The identity to use when loading: the stored one when it decodes, else
/// none (a new one is then generated and saved).
pub fn loaded_identity(stored: Option<StoredIdentity>) -> (r: Option<ServerIdentity>)
    ensures
        match stored {
            Some(s) => match decode_stored(s.cert_der_b64@, s.key_der_b64@, s.hmac_secret_b64@) {
                Some(t) => r matches Some(id) && (id.cert_der@, id.key_der@, id.hmac_secret@) == t,
                None => r is None,
            },
            None => r is None,
        },
{
    match stored {
        Some(s) => ServerIdentity::from_stored(&s),
        None => None,
    }
}

/// `rcgen::generate_simple_self_signed` for the given subject alternative
/// names: a new self-signed certificate and its PKCS#8 private key, both
/// DER; nothing when generation fails. The key is random: claimed is only
/// that neither DER encoding is empty (each is an ASN.1 structure).
#[verifier::external_body]
fn self_signed_certificate(subject_alt_names: Vec<String>) -> (r: Option<(Vec<u8>, Vec<u8>)>)
    ensures
        r matches Some((c, k)) ==> c@.len() > 0 && k@.len() > 0,
{
    match rcgen::generate_simple_self_signed(subject_alt_names) {
        Ok(ck) => Some((ck.cert.der().to_vec(), ck.key_pair.serialize_der())),
        Err(_) => None,
    }
}

/// The names the certificate is issued for: the single name `Flux` (the TLS
/// server name clients present).
pub fn certificate_names() -> (r: Vec<String>)
    ensures
        r@.len() == 1,
        r@[0]@ == "Flux"@,
{
    let mut names: Vec<String> = Vec::new();
    names.push("Flux".to_owned());
    names
}

impl ServerIdentity {
    /// A fresh identity: a new self-signed certificate for
    /// `certificate_names()` and a random secret. The certificate and its key
    /// are random; neither is empty.
    pub fn generate() -> (r: Result<ServerIdentity, String>)
        ensures
            r matches Err(e) ==> e@ == "generating self-signed certificate"@,
            r matches Ok(id) ==> id.hmac_secret@.len() == 32 && id.cert_der@.len() > 0
                && id.key_der@.len() > 0,
    {
        match self_signed_certificate(certificate_names()) {
            Some((cert_der, key_der)) => {
                let hmac_secret = random_secret();
                Ok(ServerIdentity { cert_der, key_der, hmac_secret })
            },
            None => Err("generating self-signed certificate".to_owned()),
        }
    }

    /// The identity to serve with: the stored one when it decodes, else a
    /// fresh one, which then has to be saved (the flag says so).
    pub fn load_or_create(stored: Option<StoredIdentity>) -> (r: Result<(ServerIdentity, bool), String>)
        ensures
            match stored {
                Some(s) => match decode_stored(s.cert_der_b64@, s.key_der_b64@, s.hmac_secret_b64@) {
                    Some(t) => r matches Ok((id, fresh)) && !fresh && (
                    id.cert_der@,
                    id.key_der@,
                    id.hmac_secret@,
                    ) == t,
                    None => r matches Ok((_, fresh)) ==> fresh,
                },
                None => r matches Ok((_, fresh)) ==> fresh,
            },
            r matches Err(e) ==> e@ == "generating self-signed certificate"@,
            r matches Ok((id, fresh)) ==> fresh ==> id.cert_der@.len() > 0 && id.key_der@.len() > 0,
    {
        match loaded_identity(stored) {
            Some(id) => Ok((id, false)),
            None => match ServerIdentity::generate() {
                Ok(id) => Ok((id, true)),
                Err(e) => Err(e),
            },
        }
    }
}

} // verus!
