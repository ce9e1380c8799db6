//! Credential sealing, the device key, sanitization and redaction.

use swiftpan::errors::ErrorKind;
use swiftpan::legacyvault::derive_key;
use swiftpan::legacyvault::CredentialVault;
use swiftpan::legacyvault::VaultExportPackage;
use swiftpan::vault::seal_with_key;
use swiftpan::vault::KdfParams;
use swiftpan::vault::apply_patch;
use swiftpan::vault::device_key_from_bytes;
use swiftpan::vault::empty_config;
use swiftpan::vault::open_vault;
use swiftpan::vault::random_bytes;
use swiftpan::vault::sanitize_endpoint;
use swiftpan::vault::redact_endpoint;
use swiftpan::vault::redact_key;
use swiftpan::vault::seal_vault;
use swiftpan::vault::CredentialBundle;
use swiftpan::vault::R2Config;
use swiftpan::vault::R2ConfigPatch;
use swiftpan::vault::SpBackend;
use base64::Engine;

fn bundle() -> CredentialBundle {
    CredentialBundle {
        r2: R2Config {
            endpoint: "https://acc.r2.example.com".to_string(),
            access_key_id: "AKIDAKIDAKIDAKID".to_string(),
            secret_access_key: "sk-secret-secret".to_string(),
            bucket: "tank".to_string(),
            region: Some("auto".to_string()),
        },
    }
}

fn key32() -> Vec<u8> {
    (0u8..32).collect()
}

fn nonce24() -> Vec<u8> {
    (100u8..124).collect()
}

#[test]
fn seal_then_open_returns_an_equal_bundle() {
    let b = bundle();
    let pkg = seal_vault(&b, &key32(), &nonce24(), 0).expect("seal");
    assert_eq!(pkg.version, 1);
    // the ciphertext is not the plaintext: sealing really encrypts
    assert!(!pkg.ciphertext_b64.contains("secret-secret"));
    let back = open_vault(&pkg, &key32(), 0).expect("open");
    assert_eq!(back.r2.endpoint, b.r2.endpoint);
    assert_eq!(back.r2.access_key_id, b.r2.access_key_id);
    assert_eq!(back.r2.secret_access_key, b.r2.secret_access_key);
    assert_eq!(back.r2.bucket, b.r2.bucket);
    assert_eq!(back.r2.region, b.r2.region);
}

#[test]
fn seal_round_trips_without_a_region() {
    let mut b = bundle();
    b.r2.region = None;
    let pkg = seal_vault(&b, &key32(), &nonce24(), 0).expect("seal");
    let back = open_vault(&pkg, &key32(), 0).expect("open");
    assert_eq!(back.r2.region, None);
}

#[test]
fn wrong_key_fails_as_retryable_auth() {
    let pkg = seal_vault(&bundle(), &key32(), &nonce24(), 0).expect("seal");
    let mut other = key32();
    other[0] ^= 1;
    let e = open_vault(&pkg, &other, 0).expect_err("wrong key must not decrypt");
    assert_eq!(e.kind, ErrorKind::RetryableAuth);
}

#[test]
fn tampered_ciphertext_fails_authentication() {
    let mut pkg = seal_vault(&bundle(), &key32(), &nonce24(), 0).expect("seal");
    pkg.ciphertext_b64 = "AAAA".to_string() + &pkg.ciphertext_b64[4..];
    let e = open_vault(&pkg, &key32(), 0).expect_err("tampering must fail");
    assert!(matches!(e.kind, ErrorKind::RetryableAuth | ErrorKind::NotRetriable));
}

#[test]
fn backend_set_then_get_round_trips() {
    let mut backend = SpBackend::new();
    assert!(backend.get_cached().is_none());
    let st = backend.status(false);
    assert!(!st.is_unlocked);

    let pkg = backend
        .set_with_plaintext(bundle(), &key32(), &nonce24(), 0)
        .expect("set");
    let got = backend.get_cached().expect("get after set");
    assert_eq!(got.r2.endpoint, "https://acc.r2.example.com");
    assert!(backend.status(false).is_unlocked);

    // a fresh process: lazy load from the persisted package
    let mut cold = SpBackend::new();
    let loaded = cold.load_from_package(&pkg, &key32(), 0).expect("load");
    assert_eq!(loaded.r2.bucket, "tank");
    assert_eq!(cold.get_cached().unwrap().r2.bucket, "tank");
}

#[test]
fn endpoint_is_stored_origin_only() {
    assert_eq!(
        sanitize_endpoint("https://acc.r2.example.com/some/path?x=1#f"),
        "https://acc.r2.example.com"
    );
    assert_eq!(sanitize_endpoint("https://host//"), "https://host");
    assert_eq!(sanitize_endpoint("host/path"), "host");
    assert_eq!(sanitize_endpoint("https://h:8080/x"), "https://h:8080");

    let mut backend = SpBackend::new();
    let mut b = bundle();
    b.r2.endpoint = "https://acc.r2.example.com/some/path?x=1#f".to_string();
    backend
        .set_with_plaintext(b, &key32(), &nonce24(), 0)
        .expect("set");
    assert_eq!(
        backend.get_cached().unwrap().r2.endpoint,
        "https://acc.r2.example.com"
    );
}

#[test]
fn device_key_file_forms() {
    let raw = key32();
    assert_eq!(device_key_from_bytes(&raw, 0).unwrap(), raw);

    let b64 = base64::engine::general_purpose::STANDARD_NO_PAD.encode(&raw);
    let decoded = device_key_from_bytes(&b64.clone().into_bytes(), 0).unwrap();
    assert_eq!(decoded, raw);

    let e = device_key_from_bytes(&b"short".to_vec(), 0).expect_err("bad key file");
    assert_eq!(e.kind, ErrorKind::NotRetriable);
}

#[test]
fn patch_overrides_only_given_fields() {
    let cur = bundle().r2;
    let patch = R2ConfigPatch {
        endpoint: None,
        access_key_id: Some("NEWKEY".to_string()),
        secret_access_key: None,
        bucket: None,
        region: None,
    };
    let out = apply_patch(&cur, patch);
    assert_eq!(out.access_key_id, "NEWKEY");
    assert_eq!(out.endpoint, cur.endpoint);
    assert_eq!(out.region, cur.region);

    let blank = empty_config();
    assert_eq!(blank.endpoint, "");
    assert_eq!(blank.region, None);
}

#[test]
fn redaction_masks_secrets() {
    assert_eq!(redact_key("abcd"), "****");
    assert_eq!(redact_key("abcdefgh"), "abcd****");
    assert_eq!(
        redact_endpoint("https://account123.r2.example.com"),
        "https://*****.r2.example.com"
    );
    assert_eq!(redact_endpoint("plainhost"), "*****");
    assert_eq!(redact_endpoint("http-ish.example.com"), "http***.example.com");
}

#[test]
fn legacy_vault_unlocks_with_the_right_password_only() {
    // a package sealed under a lightweight argon2id setting, so the test
    // derives keys quickly; the unlock path reads the settings from the
    // package itself
    let kdf = KdfParams {
        algo: "argon2id".to_string(),
        mem_kib: 64,
        iterations: 1,
        parallelism: 1,
        salt: (0u8..16).collect(),
    };
    let key = derive_key("pw-correct", &kdf).expect("derive");
    let (nonce_b64, ciphertext_b64) =
        seal_with_key(&bundle(), &key, &nonce24(), 0).expect("seal");
    let pkg = VaultExportPackage {
        version: 1,
        kdf,
        nonce_b64,
        ciphertext_b64,
    };

    let mut v2 = CredentialVault::new();
    let wrong = v2.unlock(&pkg, "pw-wrong", 1000, 5000);
    assert!(wrong.is_err());
    assert!(v2.get_decrypted_bundle_if_unlocked(1000).is_err());

    v2.unlock(&pkg, "pw-correct", 1000, 5000).expect("unlock");
    let b = v2.get_decrypted_bundle_if_unlocked(2000).expect("inside hold");
    assert_eq!(b.r2.bucket, "tank");
    // the hold lapses
    let e = v2.get_decrypted_bundle_if_unlocked(7000).expect_err("lapsed");
    assert_eq!(e.kind, ErrorKind::NotRetriable);
    v2.lock().unwrap();
    assert!(v2.get_decrypted_bundle_if_unlocked(2000).is_err());
}

#[test]
fn key_derivation_validates_its_settings() {
    let mut kdf = KdfParams {
        algo: "argon2id".to_string(),
        mem_kib: 64,
        iterations: 1,
        parallelism: 1,
        salt: (0u8..16).collect(),
    };
    assert!(derive_key("pw", &kdf).is_ok());

    kdf.salt = vec![0u8; 4];
    let e = derive_key("pw", &kdf).expect_err("salt below eight bytes");
    assert_eq!(e.kind, ErrorKind::NotRetriable);

    kdf.salt = (0u8..16).collect();
    kdf.iterations = 0;
    assert!(derive_key("pw", &kdf).is_err(), "zero iterations");

    kdf.iterations = 1;
    kdf.parallelism = 0x1000000;
    assert!(derive_key("pw", &kdf).is_err(), "lane count past the cap");
}

#[test]
fn random_bytes_have_the_asked_length() {
    let a = random_bytes(32).expect("os rng");
    let b = random_bytes(32).expect("os rng");
    assert_eq!(a.len(), 32);
    assert_eq!(b.len(), 32);
    assert_ne!(a, b, "two OS draws of 32 bytes colliding is vanishingly unlikely");
}
