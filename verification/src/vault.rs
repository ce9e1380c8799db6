//! The credentials backend: the bundle type, endpoint sanitization, the
//! sealed on-disk package, redacted views, and the in-memory cache.
//!
//! Sealing is XChaCha20-Poly1305 over the bundle's canonical JSON under a
//! 32-byte device key and a fresh 24-byte nonce, with the nonce and the
//! ciphertext carried as unpadded standard base64.

use vstd::prelude::*;

verus! {

use crate::errors::ErrorKind;
use crate::errors::SpError;
use crate::errors::SpResult;
use crate::jsontext::ascii_bytes;
use crate::strutil::drop_trailing;
use crate::strutil::find_first;
use crate::strutil::find_first_str;
use crate::strutil::first_at;
use crate::strutil::first_substr;
use crate::strutil::has_substr;
use crate::strutil::lemma_first_at;
use crate::strutil::lemma_first_substr;
use crate::strutil::lemma_drop_trailing_unique;
use crate::strutil::spec_starts_with;
use crate::strutil::starts_with_str;
use vstd::string::StrSliceExecFns;
use vstd::string::StringExecFns;
use base64::Engine;
use chacha20poly1305::aead::Aead;
use chacha20poly1305::aead::KeyInit;

/// Connection settings for the object store. The endpoint is kept
/// origin-only; the region defaults to `auto` when absent.
#[derive(Clone, Debug)]
pub struct R2Config {
    pub endpoint: String,
    pub access_key_id: String,
    pub secret_access_key: String,
    pub bucket: String,
    pub region: Option<String>,
}

/// The credential bundle the backend seals and serves.
#[derive(Clone, Debug)]
pub struct CredentialBundle {
    pub r2: R2Config,
}

/// A field-wise patch; absent fields keep their current value.
#[derive(Clone, Debug)]
pub struct R2ConfigPatch {
    pub endpoint: Option<String>,
    pub access_key_id: Option<String>,
    pub secret_access_key: Option<String>,
    pub bucket: Option<String>,
    pub region: Option<String>,
}

/// Key-derivation marker stored beside the ciphertext. The device-key
/// scheme stores zeros; the password scheme stores its argon2id settings.
#[derive(Clone, Debug)]
pub struct KdfParams {
    pub algo: String,
    pub mem_kib: u32,
    pub iterations: u32,
    pub parallelism: u32,
    pub salt: Vec<u8>,
}

/// The sealed credential package as persisted.
#[derive(Clone, Debug)]
pub struct BackendPackage {
    pub version: u16,
    pub kdf: KdfParams,
    pub nonce_b64: String,
    pub ciphertext_b64: String,
}

/// What `status` reports: whether credentials are available, and the
/// device id.
#[derive(Clone, Debug)]
pub struct BackendState {
    pub is_unlocked: bool,
    pub unlock_deadline_ms: Option<u64>,
    pub device_id: String,
}

/// A base64 text for export of the sealed package.
#[derive(Clone, Debug)]
pub struct CredentialExportPayload {
    pub encoded: String,
}

/// The masked credential view: the only form in which credentials leave
/// the core.
#[derive(Clone, Debug)]
pub struct RedactedCredentials {
    pub endpoint: String,
    pub access_key_id: String,
    pub secret_access_key: String,
    pub bucket: String,
    pub region: Option<String>,
}

/// The longest plaintext the AEAD accepts: below this, sealing succeeds.
pub const AEAD_PT_MAX: u64 = 0x3FFFFFFFC0;

// ---------------------------------------------------------------------
// Trusted items over the outside crates.
// ---------------------------------------------------------------------
/// The ciphertext that sealing produces for a key, nonce and plaintext.
pub uninterp spec fn seal_of(key: Seq<u8>, nonce: Seq<u8>, pt: Seq<u8>) -> Seq<u8>;

/// What opening a ciphertext under a key and nonce yields.
pub uninterp spec fn open_of(key: Seq<u8>, nonce: Seq<u8>, ct: Seq<u8>) -> Option<Seq<u8>>;

/// Relies on chacha20poly1305's `XChaCha20Poly1305` with the `Aead` trait:
/// encryption is a function of key, nonce and plaintext, decrypting its
/// output with the same key and nonce returns the plaintext, and the only
/// failure is a plaintext of 2^32 - 1 cipher blocks (64 bytes each) or more.
#[verifier::external_body]
fn aead_seal(key: &Vec<u8>, nonce: &Vec<u8>, pt: &Vec<u8>) -> (r: Result<Vec<u8>, ()>)
    requires
        key@.len() == 32,
        nonce@.len() == 24,
    ensures
        r matches Ok(ct) ==> ct@ == seal_of(key@, nonce@, pt@) && open_of(key@, nonce@, ct@)
            == Some(pt@),
        pt@.len() < AEAD_PT_MAX ==> r is Ok,
{
    let cipher = chacha20poly1305::XChaCha20Poly1305::new(chacha20poly1305::Key::from_slice(key));
    match cipher.encrypt(chacha20poly1305::XNonce::from_slice(nonce), pt.as_slice()) {
        Ok(ct) => Ok(ct),
        Err(_) => Err(()),
    }
}

/// Relies on the same AEAD: decryption is a function of key, nonce and
/// ciphertext, and fails exactly on ciphertexts whose authentication fails.
#[verifier::external_body]
fn aead_open(key: &Vec<u8>, nonce: &Vec<u8>, ct: &Vec<u8>) -> (r: Option<Vec<u8>>)
    requires
        key@.len() == 32,
        nonce@.len() == 24,
    ensures
        match open_of(key@, nonce@, ct@) {
            Some(pt) => r matches Some(p) && p@ == pt,
            None => r is None,
        },
{
    let cipher = chacha20poly1305::XChaCha20Poly1305::new(chacha20poly1305::Key::from_slice(key));
    match cipher.decrypt(chacha20poly1305::XNonce::from_slice(nonce), ct.as_slice()) {
        Ok(pt) => Some(pt),
        Err(_) => None,
    }
}

/// The base64 text of a byte string.
pub uninterp spec fn b64_of(bytes: Seq<u8>) -> Seq<char>;

/// What decoding a base64 text yields.
pub uninterp spec fn unb64_of(text: Seq<u8>) -> Option<Seq<u8>>;

/// Relies on base64's `STANDARD_NO_PAD` engine: encoding is a function of
/// the bytes, its output stays in the base64 alphabet (printable ASCII),
/// and decoding inverts it.
#[verifier::external_body]
fn b64_encode(data: &Vec<u8>) -> (r: String)
    ensures
        r@ == b64_of(data@),
        vstd::utf8::is_ascii_chars(r@),
        crate::jsontext::json_plain(r@),
        unb64_of(ascii_bytes(r@)) == Some(data@),
{
    base64::engine::general_purpose::STANDARD_NO_PAD.encode(data)
}

/// Relies on base64's `STANDARD_NO_PAD` engine: decoding is a function of
/// the input bytes.
#[verifier::external_body]
fn b64_decode(data: &Vec<u8>) -> (r: Option<Vec<u8>>)
    ensures
        match unb64_of(data@) {
            Some(bs) => r matches Some(v) && v@ == bs,
            None => r is None,
        },
{
    match base64::engine::general_purpose::STANDARD_NO_PAD.decode(data) {
        Ok(v) => Some(v),
        Err(_) => None,
    }
}

/// The 32-byte key argon2id derives from its settings, salt and password.
pub uninterp spec fn argon2id_of(
    mem_cost: u32,
    iterations: u32,
    parallelism: u32,
    salt: Seq<u8>,
    password: Seq<char>,
) -> Seq<u8>;

/// Relies on argon2's `Argon2::hash_password_into` with the Argon2id
/// algorithm, version 0x13: the derived key depends only on the cost
/// settings, the salt and the password, and fills all 32 output bytes.
/// Derivation succeeds whenever the settings pass the crate's validation
/// (memory at least 8 blocks and 8 per lane, one iteration or more, one
/// to 2^24 - 1 lanes, salt of 8 to 2^32 - 1 bytes) and the password fits
/// its length cap; it allocates `mem_cost` KiB while running.
#[verifier::external_body]
pub(crate) fn argon2id_derive(
    mem_cost: u32,
    iterations: u32,
    parallelism: u32,
    salt: &Vec<u8>,
    password: &str,
) -> (r: Result<Vec<u8>, ()>)
    requires
        parallelism <= 0xFFFFFF,
    ensures
        r matches Ok(k) ==> k@ == argon2id_of(mem_cost, iterations, parallelism, salt@, password@)
            && k@.len() == 32,
        (mem_cost >= 8 && mem_cost >= 8 * parallelism && iterations >= 1 && parallelism >= 1
            && 8 <= salt@.len() <= 0xFFFFFFFF && password@.len() <= 0x3FFFFFFF) ==> r is Ok,
{
    let params = match argon2::Params::new(mem_cost, iterations, parallelism, None) {
        Ok(p) => p,
        Err(_) => {
            return Err(());
        },
    };
    let a2 = argon2::Argon2::new(argon2::Algorithm::Argon2id, argon2::Version::V0x13, params);
    let mut key = [0u8; 32];
    match a2.hash_password_into(password.as_bytes(), salt, &mut key) {
        Ok(_) => Ok(key.to_vec()),
        Err(_) => Err(()),
    }
}

/// Relies on rand's `OsRng` through `RngCore::try_fill_bytes`: the bytes
/// come from the operating system, so nothing is promised of their values.
#[verifier::external_body]
pub fn random_bytes(n: usize) -> (r: Result<Vec<u8>, ()>)
    ensures
        r matches Ok(v) ==> v@.len() == n,
{
    let mut buf = vec![0u8; n];
    match rand::RngCore::try_fill_bytes(&mut rand::rngs::OsRng, &mut buf) {
        Ok(_) => Ok(buf),
        Err(_) => Err(()),
    }
}

// ---------------------------------------------------------------------
// Endpoint sanitization.
// ---------------------------------------------------------------------
/// The origin-only form of an endpoint: cut at the first `#`, then the
/// first `?`, then the path after the authority, and drop trailing slashes.
pub open spec fn spec_sanitize_endpoint(s: Seq<char>) -> Seq<char> {
    let a = s.take(first_at(s, '#'));
    let b = a.take(first_at(a, '?'));
    let c = if has_substr(b, "://"@) {
        let k = first_substr(b, "://"@) + 3;
        b.take(k + first_at(b.skip(k), '/'))
    } else {
        b.take(first_at(b, '/'))
    };
    drop_trailing(c, '/')
}

/// Cut an endpoint down to scheme, host and optional port: truncate at `#`,
/// at `?`, and at the path after the authority, then trim trailing slashes.
pub fn sanitize_endpoint(s: &str) -> (r: String)
    ensures
        r@ == spec_sanitize_endpoint(s@),
{
    proof {
        reveal_strlit("://");
    }
    let h = find_first(s, '#');
    proof {
        lemma_first_at(s@, '#');
    }
    let a = s.substring_char(0, h);
    let q = find_first(a, '?');
    proof {
        lemma_first_at(a@, '?');
    }
    let b = a.substring_char(0, q);
    let bn: usize = b.unicode_len();
    let sep = find_first_str(b, "://");
    let c: &str = if sep < bn {
        proof {
            lemma_first_substr(b@, "://"@);
        }
        let k = sep + 3;
        proof {
            reveal_strlit("://");
        }
        let tail = b.substring_char(k, bn);
        let cut = find_first(tail, '/');
        proof {
            assert(tail@ =~= b@.skip(k as int));
            lemma_first_at(tail@, '/');
        }
        b.substring_char(0, k + cut)
    } else {
        proof {
            lemma_first_substr(b@, "://"@);
            if has_substr(b@, "://"@) {
                let w = choose|i: int| crate::strutil::substr_at(b@, "://"@, i);
                assert(!crate::strutil::substr_at(b@, "://"@, w));
            }
        }
        let cut = find_first(b, '/');
        proof {
            lemma_first_at(b@, '/');
        }
        b.substring_char(0, cut)
    };
    // trim trailing slashes
    let cn: usize = c.unicode_len();
    let mut m: usize = cn;
    while m > 0 && c.get_char(m - 1) == '/'
        invariant
            cn == c@.len(),
            m <= cn,
            forall|j: int| m <= j < cn ==> c@[j] == '/',
        decreases m,
    {
        m -= 1;
    }
    let trimmed = c.substring_char(0, m);
    proof {
        lemma_first_at(s@, '#');
        lemma_first_at(a@, '?');
        lemma_drop_trailing_unique(c@, '/', m as int);
    }
    trimmed.to_owned()
}

/// A truncation of a JSON-plain string stays JSON-plain.
pub proof fn lemma_sanitize_keeps_plain(s: Seq<char>)
    requires
        crate::jsontext::json_plain(s),
    ensures
        crate::jsontext::json_plain(spec_sanitize_endpoint(s)),
{
    lemma_first_at(s, '#');
    lemma_take_plain(s, first_at(s, '#'));
    let a = s.take(first_at(s, '#'));
    lemma_first_at(a, '?');
    lemma_take_plain(a, first_at(a, '?'));
    let b = a.take(first_at(a, '?'));
    let c = if has_substr(b, "://"@) {
        let k = first_substr(b, "://"@) + 3;
        b.take(k + first_at(b.skip(k), '/'))
    } else {
        b.take(first_at(b, '/'))
    };
    reveal_strlit("://");
    lemma_first_substr(b, "://"@);
    if has_substr(b, "://"@) {
        let k = first_substr(b, "://"@) + 3;
        lemma_first_at(b.skip(k), '/');
        lemma_take_plain(b, k + first_at(b.skip(k), '/'));
    } else {
        lemma_first_at(b, '/');
        lemma_take_plain(b, first_at(b, '/'));
    }
    lemma_drop_trailing_plain(c, '/');
}

proof fn lemma_take_plain(s: Seq<char>, m: int)
    requires
        crate::jsontext::json_plain(s),
    ensures
        crate::jsontext::json_plain(s.take(if m < 0 { 0 } else if m > s.len() { s.len() as int } else { m })),
        0 <= m <= s.len() ==> crate::jsontext::json_plain(s.take(m)),
{
    let mm = if m < 0 { 0 } else if m > s.len() { s.len() as int } else { m };
    assert forall|j: int| 0 <= j < s.take(mm).len() implies crate::jsontext::is_plain_byte(
        #[trigger] s.take(mm)[j] as u8,
    ) && (s.take(mm)[j] as u32) < 127 by {
        assert(s.take(mm)[j] == s[j]);
    }
}

/// Dropping trailing characters never lengthens a text.
proof fn lemma_drop_trailing_no_longer(s: Seq<char>, c: char)
    ensures
        drop_trailing(s, c).len() <= s.len(),
    decreases s.len(),
{
    if s.len() > 0 && s.last() == c {
        lemma_drop_trailing_no_longer(s.drop_last(), c);
    }
}

/// Sanitizing an endpoint never lengthens it.
pub proof fn lemma_sanitize_no_longer(s: Seq<char>)
    ensures
        spec_sanitize_endpoint(s).len() <= s.len(),
{
    lemma_first_at(s, '#');
    let a = s.take(first_at(s, '#'));
    lemma_first_at(a, '?');
    let b = a.take(first_at(a, '?'));
    reveal_strlit("://");
    lemma_first_substr(b, "://"@);
    if has_substr(b, "://"@) {
        let k = first_substr(b, "://"@) + 3;
        lemma_first_at(b.skip(k), '/');
        lemma_drop_trailing_no_longer(b.take(k + first_at(b.skip(k), '/')), '/');
    } else {
        lemma_first_at(b, '/');
        lemma_drop_trailing_no_longer(b.take(first_at(b, '/')), '/');
    }
}

proof fn lemma_drop_trailing_plain(s: Seq<char>, c: char)
    requires
        crate::jsontext::json_plain(s),
    ensures
        crate::jsontext::json_plain(drop_trailing(s, c)),
    decreases s.len(),
{
    if s.len() > 0 && s.last() == c {
        lemma_take_plain(s, s.len() - 1);
        assert(s.drop_last() =~= s.take(s.len() - 1));
        lemma_drop_trailing_plain(s.drop_last(), c);
    }
}

// ---------------------------------------------------------------------
// Sealing and opening.
// ---------------------------------------------------------------------
/// What the opening chain yields for a package and key: base64-decode the
/// nonce and the ciphertext, open the AEAD, parse the bundle.
pub open spec fn vault_chain(pkg: BackendPackage, key: Seq<u8>) -> Option<
    crate::bundlejson::BundleModel,
> {
    open_chain(pkg.nonce_b64, pkg.ciphertext_b64, key)
}

/// The opening chain over the stored base64 fields.
pub open spec fn open_chain(nonce_b64: String, ciphertext_b64: String, key: Seq<u8>) -> Option<
    crate::bundlejson::BundleModel,
> {
    if !vstd::utf8::is_ascii_chars(nonce_b64@) || !vstd::utf8::is_ascii_chars(ciphertext_b64@) {
        None
    } else {
        match unb64_of(ascii_bytes(nonce_b64@)) {
            None => None,
            Some(nonce) => if nonce.len() != 24 {
                None
            } else {
                match unb64_of(ascii_bytes(ciphertext_b64@)) {
                    None => None,
                    Some(ct) => match open_of(key, nonce, ct) {
                        None => None,
                        Some(pt) => crate::bundlejson::sp_bundle(pt),
                    },
                }
            },
        }
    }
}

/// The decryption step of the chain fails (as opposed to its framing).
pub open spec fn vault_chain_auth_failed(pkg: BackendPackage, key: Seq<u8>) -> bool {
    open_chain_auth_failed(pkg.nonce_b64, pkg.ciphertext_b64, key)
}

/// The decryption step of the chain fails, over the stored fields.
pub open spec fn open_chain_auth_failed(
    nonce_b64: String,
    ciphertext_b64: String,
    key: Seq<u8>,
) -> bool {
    vstd::utf8::is_ascii_chars(nonce_b64@) && vstd::utf8::is_ascii_chars(ciphertext_b64@)
        && match unb64_of(ascii_bytes(nonce_b64@)) {
        None => false,
        Some(nonce) => nonce.len() == 24 && match unb64_of(ascii_bytes(ciphertext_b64@)) {
            None => false,
            Some(ct) => open_of(key, nonce, ct) is None,
        },
    }
}

/// Seal a bundle's canonical JSON under a key and nonce; returns the
/// base64 nonce and ciphertext, with the facts the round trip needs.
#[verifier::rlimit(100)]
#[verifier::spinoff_prover]
pub fn seal_with_key(bundle: &CredentialBundle, key: &Vec<u8>, nonce: &Vec<u8>, now: i64) -> (r:
    Result<(String, String), SpError>)
    requires
        key@.len() == 32,
        nonce@.len() == 24,
        crate::bundlejson::bundle_encodable(*bundle),
    ensures
        r matches Ok(p) ==> {
            &&& p.0@ == b64_of(nonce@)
            &&& p.1@ == b64_of(seal_of(key@, nonce@, crate::bundlejson::json_bundle(*bundle)))
            &&& open_chain(p.0, p.1, key@) == Some(crate::bundlejson::bundle_model(*bundle))
        },
        crate::bundlejson::json_bundle(*bundle).len() < AEAD_PT_MAX ==> r is Ok,
{
    let plaintext = crate::bundlejson::encode_bundle(bundle);
    let ct = match aead_seal(key, nonce, &plaintext) {
        Ok(c) => c,
        Err(_) => {
            return Err(
                SpError::new(ErrorKind::NotRetriable, String::from_str("encrypt failed"), now),
            );
        },
    };
    let nonce_b64 = b64_encode(nonce);
    let ciphertext_b64 = b64_encode(&ct);
    proof {
        crate::bundlejson::lemma_bundle_round_trip(*bundle);
    }
    Ok((nonce_b64, ciphertext_b64))
}

/// Seal a bundle under a device key and a fresh nonce into the persisted
/// package form (version 1, device-key KDF marker).
pub fn seal_vault(bundle: &CredentialBundle, device_key: &Vec<u8>, nonce: &Vec<u8>, now: i64) -> (r:
    Result<BackendPackage, SpError>)
    requires
        device_key@.len() == 32,
        nonce@.len() == 24,
        crate::bundlejson::bundle_encodable(*bundle),
    ensures
        r matches Ok(pkg) ==> {
            &&& pkg.version == 1
            &&& pkg.kdf.algo@ == "device-key"@
            &&& pkg.kdf.mem_kib == 0 && pkg.kdf.iterations == 0 && pkg.kdf.parallelism == 0
            &&& pkg.kdf.salt@.len() == 16 && (forall|i: int|
                0 <= i < 16 ==> pkg.kdf.salt@[i] == 0u8)
            &&& pkg.nonce_b64@ == b64_of(nonce@)
            &&& pkg.ciphertext_b64@ == b64_of(
                seal_of(device_key@, nonce@, crate::bundlejson::json_bundle(*bundle)),
            )
            &&& vault_chain(pkg, device_key@) == Some(crate::bundlejson::bundle_model(*bundle))
        },
        crate::bundlejson::json_bundle(*bundle).len() < AEAD_PT_MAX ==> r is Ok,
{
    let sealed = match seal_with_key(bundle, device_key, nonce, now) {
        Ok(p) => p,
        Err(e) => {
            return Err(e);
        },
    };
    let pkg = BackendPackage {
        version: 1,
        kdf: KdfParams {
            algo: String::from_str("device-key"),
            mem_kib: 0,
            iterations: 0,
            parallelism: 0,
            salt: zero_salt(),
        },
        nonce_b64: sealed.0,
        ciphertext_b64: sealed.1,
    };
    Ok(pkg)
}

/// Sixteen zero bytes, the KDF-marker salt of the device-key scheme.
fn zero_salt() -> (r: Vec<u8>)
    ensures
        r@.len() == 16,
        forall|i: int| 0 <= i < 16 ==> r@[i] == 0u8,
{
    let mut v: Vec<u8> = Vec::new();
    let mut k: usize = 0;
    while k < 16
        invariant
            k <= 16,
            v@.len() == k,
            forall|i: int| 0 <= i < k ==> v@[i] == 0u8,
        decreases 16 - k,
    {
        v.push(0u8);
        k += 1;
    }
    v
}

/// Open a sealed pair of base64 fields with a key: decode, decrypt, and
/// parse the bundle. Decryption failure is `RetryableAuth`; a malformed
/// package or payload is `NotRetriable`.
pub fn open_with_key(nonce_b64: &String, ciphertext_b64: &String, key: &Vec<u8>, now: i64) -> (r:
    Result<CredentialBundle, SpError>)
    requires
        key@.len() == 32,
    ensures
        match r {
            Ok(b) => open_chain(*nonce_b64, *ciphertext_b64, key@) == Some(
                crate::bundlejson::bundle_model(b),
            ),
            Err(e) => {
                &&& open_chain(*nonce_b64, *ciphertext_b64, key@) is None
                &&& e.kind == ErrorKind::RetryableAuth || e.kind == ErrorKind::NotRetriable
                &&& e.kind == ErrorKind::RetryableAuth <==> open_chain_auth_failed(
                    *nonce_b64,
                    *ciphertext_b64,
                    key@,
                )
            },
        },
{
    let ns = nonce_b64.as_str();
    let cs = ciphertext_b64.as_str();
    if !ns.is_ascii() || !cs.is_ascii() {
        return Err(SpError::new(ErrorKind::NotRetriable, String::from_str("bad package"), now));
    }
    let nonce_text = ns.as_bytes_vec();
    proof {
        vstd::string::is_ascii_spec_bytes(ns);
        assert(nonce_text@ =~= ascii_bytes(nonce_b64@));
    }
    let nonce = match b64_decode(&nonce_text) {
        Some(v) => v,
        None => {
            return Err(
                SpError::new(ErrorKind::NotRetriable, String::from_str("decode nonce"), now),
            );
        },
    };
    if nonce.len() != 24 {
        return Err(SpError::new(ErrorKind::NotRetriable, String::from_str("bad nonce"), now));
    }
    let ct_text = cs.as_bytes_vec();
    proof {
        vstd::string::is_ascii_spec_bytes(cs);
        assert(ct_text@ =~= ascii_bytes(ciphertext_b64@));
    }
    let ct = match b64_decode(&ct_text) {
        Some(v) => v,
        None => {
            return Err(
                SpError::new(ErrorKind::NotRetriable, String::from_str("decode ciphertext"), now),
            );
        },
    };
    let pt = match aead_open(key, &nonce, &ct) {
        Some(v) => v,
        None => {
            return Err(
                SpError::new(ErrorKind::RetryableAuth, String::from_str("decrypt failed"), now),
            );
        },
    };
    match crate::bundlejson::decode_bundle(&pt) {
        Some(b) => Ok(b),
        None => Err(
            SpError::new(ErrorKind::NotRetriable, String::from_str("decode bundle json"), now),
        ),
    }
}

/// Open a sealed package with the device key.
pub fn open_vault(pkg: &BackendPackage, device_key: &Vec<u8>, now: i64) -> (r: Result<
    CredentialBundle,
    SpError,
>)
    requires
        device_key@.len() == 32,
    ensures
        match r {
            Ok(b) => vault_chain(*pkg, device_key@) == Some(crate::bundlejson::bundle_model(b)),
            Err(e) => {
                &&& vault_chain(*pkg, device_key@) is None
                &&& e.kind == ErrorKind::RetryableAuth || e.kind == ErrorKind::NotRetriable
                &&& e.kind == ErrorKind::RetryableAuth <==> vault_chain_auth_failed(
                    *pkg,
                    device_key@,
                )
            },
        },
{
    open_with_key(&pkg.nonce_b64, &pkg.ciphertext_b64, device_key, now)
}

/// Opening a sealed package with the key it was sealed under returns an
/// equal bundle: `set` followed by `get` round-trips.
#[verifier::rlimit(100)]
#[verifier::spinoff_prover]
pub proof fn lemma_seal_open_round_trip(
    pkg: BackendPackage,
    b: CredentialBundle,
    key: Seq<u8>,
    nonce: Seq<u8>,
)
    requires
        crate::bundlejson::bundle_encodable(b),
        nonce.len() == 24,
        vstd::utf8::is_ascii_chars(pkg.nonce_b64@),
        vstd::utf8::is_ascii_chars(pkg.ciphertext_b64@),
        pkg.nonce_b64@ == b64_of(nonce),
        unb64_of(ascii_bytes(pkg.nonce_b64@)) == Some(nonce),
        unb64_of(ascii_bytes(pkg.ciphertext_b64@)) == Some(
            seal_of(key, nonce, crate::bundlejson::json_bundle(b)),
        ),
        open_of(key, nonce, seal_of(key, nonce, crate::bundlejson::json_bundle(b))) == Some(
            crate::bundlejson::json_bundle(b),
        ),
    ensures
        vault_chain(pkg, key) == Some(crate::bundlejson::bundle_model(b)),
{
    crate::bundlejson::lemma_bundle_round_trip(b);
}

// ---------------------------------------------------------------------
// Device key bytes.
// ---------------------------------------------------------------------
/// Interpret the device-key file's bytes: 32 raw bytes, or base64 decoding
/// to 32 bytes; anything else is rejected.
pub fn device_key_from_bytes(data: &Vec<u8>, now: i64) -> (r: Result<Vec<u8>, SpError>)
    ensures
        match r {
            Ok(k) => k@.len() == 32 && (k@ == data@ || unb64_of(data@) == Some(k@)),
            Err(e) => data@.len() != 32 && match unb64_of(data@) {
                Some(d) => d.len() != 32,
                None => true,
            } && e.kind == ErrorKind::NotRetriable,
        },
{
    if data.len() == 32 {
        return Ok(data.clone());
    }
    if let Some(decoded) = b64_decode(data) {
        if decoded.len() == 32 {
            return Ok(decoded);
        }
    }
    Err(SpError::new(ErrorKind::NotRetriable, String::from_str("invalid device key"), now))
}

// ---------------------------------------------------------------------
// Patching and redaction.
// ---------------------------------------------------------------------
/// Apply the non-null fields of a patch to a configuration.
pub fn apply_patch(cur: &R2Config, patch: R2ConfigPatch) -> (r: R2Config)
    ensures
        r.endpoint == match patch.endpoint {
            Some(v) => v,
            None => cur.endpoint,
        },
        r.access_key_id == match patch.access_key_id {
            Some(v) => v,
            None => cur.access_key_id,
        },
        r.secret_access_key == match patch.secret_access_key {
            Some(v) => v,
            None => cur.secret_access_key,
        },
        r.bucket == match patch.bucket {
            Some(v) => v,
            None => cur.bucket,
        },
        r.region == match patch.region {
            Some(v) => Some(v),
            None => cur.region,
        },
{
    R2Config {
        endpoint: match patch.endpoint {
            Some(v) => v,
            None => cur.endpoint.clone(),
        },
        access_key_id: match patch.access_key_id {
            Some(v) => v,
            None => cur.access_key_id.clone(),
        },
        secret_access_key: match patch.secret_access_key {
            Some(v) => v,
            None => cur.secret_access_key.clone(),
        },
        bucket: match patch.bucket {
            Some(v) => v,
            None => cur.bucket.clone(),
        },
        region: match patch.region {
            Some(v) => Some(v),
            None => cur.region.clone(),
        },
    }
}

/// A field-wise copy of a bundle.
pub fn clone_bundle(b: &CredentialBundle) -> (r: CredentialBundle)
    ensures
        r == *b,
{
    CredentialBundle {
        r2: R2Config {
            endpoint: b.r2.endpoint.clone(),
            access_key_id: b.r2.access_key_id.clone(),
            secret_access_key: b.r2.secret_access_key.clone(),
            bucket: b.r2.bucket.clone(),
            region: match &b.r2.region {
                Some(x) => Some(x.clone()),
                None => None,
            },
        },
    }
}

/// The all-empty configuration a patch starts from when nothing is stored.
pub fn empty_config() -> (r: R2Config)
    ensures
        r.endpoint@ == Seq::<char>::empty(),
        r.access_key_id@ == Seq::<char>::empty(),
        r.secret_access_key@ == Seq::<char>::empty(),
        r.bucket@ == Seq::<char>::empty(),
        r.region is None,
{
    R2Config {
        endpoint: String::new(),
        access_key_id: String::new(),
        secret_access_key: String::new(),
        bucket: String::new(),
        region: None,
    }
}

/// `n` copies of `c`.
pub open spec fn char_repeat(c: char, n: int) -> Seq<char> {
    Seq::new(if n < 0 { 0 } else { n as nat }, |i: int| c)
}

/// The masked view of a secret: up to four leading characters kept, the
/// rest replaced by `*`; four stars when it is too short to show anything.
pub open spec fn spec_redact_key(s: Seq<char>) -> Seq<char> {
    if s.len() <= 4 {
        "****"@
    } else {
        s.take(4) + char_repeat('*', s.len() - 4)
    }
}

/// Mask a secret for display.
pub fn redact_key(s: &str) -> (r: String)
    ensures
        r@ == spec_redact_key(s@),
{
    let n: usize = s.unicode_len();
    if n <= 4 {
        return String::from_str("****");
    }
    let mut out = s.substring_char(0, 4).to_owned();
    let mut k: usize = 4;
    while k < n
        invariant
            4 < n == s@.len(),
            4 <= k <= n,
            out@ == s@.take(4) + char_repeat('*', k - 4),
        decreases n - k,
    {
        proof {
            reveal_strlit("*");
        }
        out.append("*");
        proof {
            assert(out@ =~= s@.take(4) + char_repeat('*', k - 3));
        }
        k += 1;
    }
    out
}

/// The masked view of an endpoint: for an `https://` host the account
/// segment before the first dot is starred out; otherwise the part before
/// the first dot is masked (keeping up to four characters of a scheme-like
/// prefix), and the rest is kept.
pub open spec fn spec_redact_endpoint(s: Seq<char>) -> Seq<char> {
    if spec_starts_with(s, "https://"@) && first_at(s.skip(8), '.') < s.len() - 8 {
        "https://*****"@ + s.skip(8).skip(first_at(s.skip(8), '.'))
    } else {
        let d = first_at(s, '.');
        let head = s.take(d);
        let masked = if spec_starts_with(head, "http"@) {
            head.take(4) + "***"@
        } else {
            "*****"@
        };
        if d >= s.len() {
            masked
        } else {
            masked + "."@ + s.skip(d + 1)
        }
    }
}

/// Mask an endpoint for display.
pub fn redact_endpoint(s: &str) -> (r: String)
    ensures
        r@ == spec_redact_endpoint(s@),
{
    let n: usize = s.unicode_len();
    if starts_with_str(s, "https://") {
        proof {
            reveal_strlit("https://");
        }
        let rest = s.substring_char(8, n);
        let idx = find_first(rest, '.');
        let rn: usize = rest.unicode_len();
        if idx < rn {
            let mut out = String::from_str("https://*****");
            out.append(rest.substring_char(idx, rn));
            proof {
                assert(rest@.subrange(idx as int, rn as int) =~= s@.skip(8).skip(
                    first_at(s@.skip(8), '.'),
                ));
            }
            return out;
        }
    }
    proof {
        reveal_strlit("https://");
    }
    let d = find_first(s, '.');
    proof {
        lemma_first_at(s@, '.');
    }
    let head = s.substring_char(0, d);
    let hn: usize = head.unicode_len();
    let masked: String = if starts_with_str(head, "http") {
        proof {
            reveal_strlit("http");
        }
        let mut m = head.substring_char(0, 4).to_owned();
        m.append("***");
        m
    } else {
        String::from_str("*****")
    };
    if d >= n {
        proof {
            assert(masked@ =~= spec_redact_endpoint(s@));
        }
        return masked;
    }
    let mut out = masked;
    out.append(".");
    out.append(s.substring_char(d + 1, n));
    proof {
        assert(s@.subrange(d + 1, n as int) =~= s@.skip(d + 1));
        assert(out@ =~= spec_redact_endpoint(s@));
    }
    out
}

/// Mask a bundle for display: the endpoint's account segment and every
/// secret are starred out.
pub fn credentials_redacted(b: &CredentialBundle) -> (r: RedactedCredentials)
    ensures
        r.endpoint@ == spec_redact_endpoint(b.r2.endpoint@),
        r.access_key_id@ == spec_redact_key(b.r2.access_key_id@),
        r.secret_access_key@ == spec_redact_key(b.r2.secret_access_key@),
        r.bucket@ == spec_redact_key(b.r2.bucket@),
        r.region == b.r2.region,
{
    RedactedCredentials {
        endpoint: redact_endpoint(b.r2.endpoint.as_str()),
        access_key_id: redact_key(b.r2.access_key_id.as_str()),
        secret_access_key: redact_key(b.r2.secret_access_key.as_str()),
        bucket: redact_key(b.r2.bucket.as_str()),
        region: match &b.r2.region {
            Some(x) => Some(x.clone()),
            None => None,
        },
    }
}

// ---------------------------------------------------------------------
// The in-memory backend.
// ---------------------------------------------------------------------
/// The backend's process-lifetime memory: the decrypted bundle, cached on
/// first access.
pub struct SpBackend {
    pub cached: Option<CredentialBundle>,
}

impl SpBackend {
    /// A fresh backend with nothing cached.
    pub fn new() -> (r: SpBackend)
        ensures
            r.cached is None,
    {
        SpBackend { cached: None }
    }

    /// `configured` is true when a bundle is cached in memory or a sealed
    /// package exists on disk (the caller reports the latter).
    pub fn status(&self, vault_file_exists: bool) -> (r: BackendState)
        ensures
            r.is_unlocked == (self.cached is Some || vault_file_exists),
            r.unlock_deadline_ms is None,
    {
        BackendState {
            is_unlocked: self.cached.is_some() || vault_file_exists,
            unlock_deadline_ms: None,
            device_id: String::from_str("dev-removed"),
        }
    }

    /// Sanitize the endpoint, seal the bundle, and cache it. Returns the
    /// package for the caller to persist.
    pub fn set_with_plaintext(
        &mut self,
        bundle: CredentialBundle,
        device_key: &Vec<u8>,
        nonce: &Vec<u8>,
        now: i64,
    ) -> (r: Result<BackendPackage, SpError>)
        requires
            device_key@.len() == 32,
            nonce@.len() == 24,
            crate::bundlejson::bundle_encodable(bundle),
        ensures
            match r {
                Ok(pkg) => {
                    &&& final(self).cached matches Some(b2)
                    &&& b2.r2.endpoint@ == spec_sanitize_endpoint(bundle.r2.endpoint@)
                    &&& b2.r2.access_key_id == bundle.r2.access_key_id
                    &&& b2.r2.secret_access_key == bundle.r2.secret_access_key
                    &&& b2.r2.bucket == bundle.r2.bucket
                    &&& b2.r2.region == bundle.r2.region
                    &&& pkg.version == 1
                    &&& pkg.kdf.algo@ == "device-key"@
                    &&& pkg.kdf.mem_kib == 0 && pkg.kdf.iterations == 0 && pkg.kdf.parallelism
                        == 0
                    &&& pkg.kdf.salt@.len() == 16 && (forall|i: int|
                        0 <= i < 16 ==> pkg.kdf.salt@[i] == 0u8)
                    &&& pkg.nonce_b64@ == b64_of(nonce@)
                    &&& pkg.ciphertext_b64@ == b64_of(
                        seal_of(device_key@, nonce@, crate::bundlejson::json_bundle(b2)),
                    )
                    &&& vault_chain(pkg, device_key@) == Some(
                        crate::bundlejson::bundle_model(b2),
                    )
                },
                Err(_) => final(self).cached == old(self).cached,
            },
            crate::bundlejson::json_bundle(bundle).len() < AEAD_PT_MAX ==> r is Ok,
    {
        let sane = CredentialBundle {
            r2: R2Config {
                endpoint: sanitize_endpoint(bundle.r2.endpoint.as_str()),
                access_key_id: bundle.r2.access_key_id,
                secret_access_key: bundle.r2.secret_access_key,
                bucket: bundle.r2.bucket,
                region: bundle.r2.region,
            },
        };
        proof {
            lemma_sanitize_keeps_plain(bundle.r2.endpoint@);
            lemma_sanitize_no_longer(bundle.r2.endpoint@);
            assert(crate::bundlejson::json_bundle(sane).len()
                <= crate::bundlejson::json_bundle(bundle).len());
        }
        let pkg = match seal_vault(&sane, device_key, nonce, now) {
            Ok(p) => p,
            Err(e) => {
                return Err(e);
            },
        };
        self.cached = Some(sane);
        Ok(pkg)
    }

    /// The cached bundle, if one is loaded.
    pub fn get_cached(&self) -> (r: Option<CredentialBundle>)
        ensures
            r == self.cached,
    {
        match &self.cached {
            Some(b) => Some(clone_bundle(b)),
            None => None,
        }
    }

    /// Open a package read from disk and cache the bundle: the lazy-load
    /// path of `get`.
    pub fn load_from_package(
        &mut self,
        pkg: &BackendPackage,
        device_key: &Vec<u8>,
        now: i64,
    ) -> (r: Result<CredentialBundle, SpError>)
        requires
            device_key@.len() == 32,
        ensures
            match r {
                Ok(b) => {
                    &&& vault_chain(*pkg, device_key@) == Some(crate::bundlejson::bundle_model(b))
                    &&& final(self).cached == Some(b)
                },
                Err(e) => {
                    &&& vault_chain(*pkg, device_key@) is None
                    &&& final(self).cached == old(self).cached
                    &&& e.kind == ErrorKind::RetryableAuth || e.kind == ErrorKind::NotRetriable
                    &&& e.kind == ErrorKind::RetryableAuth <==> vault_chain_auth_failed(
                        *pkg,
                        device_key@,
                    )
                },
            },
    {
        match open_vault(pkg, device_key, now) {
            Ok(b) => {
                self.cached = Some(clone_bundle(&b));
                Ok(b)
            },
            Err(e) => Err(e),
        }
    }

    /// Credential export is a stub.
    pub fn export_package(&self, now: i64) -> (r: SpResult<BackendPackage>)
        ensures
            r matches Err(e) && e.kind == ErrorKind::NotImplemented,
    {
        Err(crate::errors::err_not_implemented("backend.export_package not implemented", now))
    }

    /// Credential import is a stub.
    pub fn import_package(&self, _pkg: BackendPackage, now: i64) -> (r: SpResult<()>)
        ensures
            r matches Err(e) && e.kind == ErrorKind::NotImplemented,
    {
        Err(crate::errors::err_not_implemented("backend.import_package not implemented", now))
    }

    /// Password rotation is a stub.
    pub fn rotate_password(&self, _old_pw: &str, _new_pw: &str, now: i64) -> (r: SpResult<()>)
        ensures
            r matches Err(e) && e.kind == ErrorKind::NotImplemented,
    {
        Err(crate::errors::err_not_implemented("backend.rotate_password not implemented", now))
    }
}

} // verus!
