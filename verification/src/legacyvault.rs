//! The legacy password-locked credential vault: argon2id key derivation, a
//! sealed export package, and a time-bounded unlock. The current backend
//! uses the device key instead; this surface is kept for compatibility.

use vstd::prelude::*;

verus! {

use crate::bundlejson::BundleModel;
use crate::bundlejson::bundle_model;
use crate::errors::ErrorKind;
use crate::errors::SpError;
use crate::errors::SpResult;
use crate::errors::err_not_implemented;
use crate::vault::CredentialBundle;
use crate::vault::KdfParams;
use crate::vault::clone_bundle;
use vstd::string::StringExecFns;

/// What `status` reports.
#[derive(Clone, Debug)]
pub struct VaultState {
    pub is_unlocked: bool,
    pub unlock_deadline_ms: Option<u64>,
    pub device_id: String,
}

/// The sealed export package, with its argon2id settings.
#[derive(Clone, Debug)]
pub struct VaultExportPackage {
    pub version: u16,
    pub kdf: KdfParams,
    pub nonce_b64: String,
    pub ciphertext_b64: String,
}

/// Settings argon2 accepts: enough memory for the lanes, at least one
/// iteration, a sane lane count, and a salt of 8 to 2^32 - 1 bytes.
pub open spec fn argon2_params_ok(kdf: KdfParams) -> bool {
    &&& kdf.mem_kib >= 8
    &&& 1 <= kdf.parallelism <= 0xFFFFFF
    &&& kdf.mem_kib >= 8 * kdf.parallelism
    &&& kdf.iterations >= 1
    &&& 8 <= kdf.salt@.len() <= 0xFFFFFFFF
}

/// Derive the sealing key from a password and the stored settings; the
/// stored memory cost is argon2's m-cost in KiB. Succeeds for every
/// accepted setting and password within the length cap.
pub fn derive_key(master_password: &str, kdf: &KdfParams) -> (r: Result<Vec<u8>, SpError>)
    ensures
        r matches Ok(k) ==> k@ == crate::vault::argon2id_of(
            kdf.mem_kib,
            kdf.iterations,
            kdf.parallelism,
            kdf.salt@,
            master_password@,
        ) && k@.len() == 32,
        (argon2_params_ok(*kdf) && master_password@.len() <= 0x3FFFFFFF) ==> r is Ok,
        r matches Err(e) ==> e.kind == ErrorKind::NotRetriable,
{
    if kdf.parallelism > 0xFFFFFF {
        return Err(
            SpError::new(ErrorKind::NotRetriable, String::from_str("key derivation failed"), 0),
        );
    }
    match crate::vault::argon2id_derive(
        kdf.mem_kib,
        kdf.iterations,
        kdf.parallelism,
        &kdf.salt,
        master_password,
    ) {
        Ok(k) => Ok(k),
        Err(_) => Err(
            SpError::new(
                ErrorKind::NotRetriable,
                String::from_str("key derivation failed"),
                0,
            ),
        ),
    }
}

/// What the unlock chain yields for a package and password: derive the
/// key, base64-decode the nonce and the ciphertext, open the AEAD, parse
/// the bundle.
pub open spec fn legacy_chain(pkg: VaultExportPackage, password: Seq<char>) -> Option<BundleModel> {
    let key = legacy_key(pkg, password);
    if key.len() != 32 {
        None
    } else {
        crate::vault::open_chain(pkg.nonce_b64, pkg.ciphertext_b64, key)
    }
}

/// The key the package's settings derive from a password.
pub open spec fn legacy_key(pkg: VaultExportPackage, password: Seq<char>) -> Seq<u8> {
    crate::vault::argon2id_of(
        pkg.kdf.mem_kib,
        pkg.kdf.iterations,
        pkg.kdf.parallelism,
        pkg.kdf.salt@,
        password,
    )
}

/// The unlock failed at the authentication step, not at its framing.
pub open spec fn legacy_auth_failed(pkg: VaultExportPackage, password: Seq<char>) -> bool {
    crate::vault::open_chain_auth_failed(pkg.nonce_b64, pkg.ciphertext_b64, legacy_key(pkg, password))
}

/// The legacy vault's in-memory state.
pub struct CredentialVault {
    pub unlocked: Option<CredentialBundle>,
    pub unlock_deadline_ms: Option<u64>,
}

impl CredentialVault {
    /// A locked vault.
    pub fn new() -> (r: CredentialVault)
        ensures
            r.unlocked is None,
            r.unlock_deadline_ms is None,
    {
        CredentialVault { unlocked: None, unlock_deadline_ms: None }
    }

    /// What the vault reports of itself.
    pub fn status(&self) -> (r: VaultState)
        ensures
            r.is_unlocked == (self.unlocked is Some),
            r.unlock_deadline_ms == self.unlock_deadline_ms,
    {
        VaultState {
            is_unlocked: self.unlocked.is_some(),
            unlock_deadline_ms: self.unlock_deadline_ms,
            device_id: String::from_str("dev-unknown"),
        }
    }

    /// Seal a bundle under a password-derived key into the export package
    /// (version 1, argon2id settings recorded beside the ciphertext).
    pub fn set_with_plaintext(
        &self,
        bundle: &CredentialBundle,
        master_password: &str,
        salt: Vec<u8>,
        nonce: &Vec<u8>,
        now: i64,
    ) -> (r: Result<VaultExportPackage, SpError>)
        requires
            nonce@.len() == 24,
            crate::bundlejson::bundle_encodable(*bundle),
        ensures
            r matches Ok(pkg) ==> {
                &&& pkg.version == 1
                &&& pkg.kdf.algo@ == "argon2id"@
                &&& pkg.kdf.mem_kib == 65536
                &&& pkg.kdf.iterations == 3
                &&& pkg.kdf.parallelism == 2
                &&& pkg.kdf.salt == salt
                &&& legacy_chain(pkg, master_password@) == Some(bundle_model(*bundle))
            },
            (8 <= salt@.len() <= 0xFFFFFFFF && master_password@.len() <= 0x3FFFFFFF
                && crate::bundlejson::json_bundle(*bundle).len() < crate::vault::AEAD_PT_MAX)
                ==> r is Ok,
    {
        let kdf = KdfParams {
            algo: String::from_str("argon2id"),
            mem_kib: 65536,
            iterations: 3,
            parallelism: 2,
            salt,
        };
        let key = match derive_key(master_password, &kdf) {
            Ok(k) => k,
            Err(e) => {
                return Err(e);
            },
        };
        match crate::vault::seal_with_key(bundle, &key, nonce, now) {
            Ok((nonce_b64, ciphertext_b64)) => {
                proof {
                    crate::bundlejson::lemma_bundle_round_trip(*bundle);
                }
                Ok(VaultExportPackage { version: 1, kdf, nonce_b64, ciphertext_b64 })
            },
            Err(e) => Err(e),
        }
    }

    /// Unlock from a stored package: derive the key from the recorded
    /// settings, open the ciphertext, and hold the bundle until the
    /// deadline. A failed decryption is `RetryableAuth` (a wrong
    /// password); a malformed package is `NotRetriable`.
    pub fn unlock(
        &mut self,
        pkg: &VaultExportPackage,
        master_password: &str,
        now_ms: u64,
        hold_ms: u64,
    ) -> (r: SpResult<()>)
        requires
            now_ms + hold_ms <= u64::MAX,
        ensures
            match r {
                Ok(_) => {
                    &&& legacy_chain(*pkg, master_password@) matches Some(m)
                    &&& final(self).unlocked matches Some(b) && bundle_model(b) == legacy_chain(
                        *pkg,
                        master_password@,
                    ).unwrap()
                    &&& final(self).unlock_deadline_ms == Some((now_ms + hold_ms) as u64)
                },
                Err(e) => {
                    &&& *final(self) == *old(self)
                    &&& legacy_chain(*pkg, master_password@) is None || !argon2_params_ok(pkg.kdf)
                        || master_password@.len() > 0x3FFFFFFF
                    &&& e.kind == ErrorKind::RetryableAuth || e.kind == ErrorKind::NotRetriable
                    &&& (argon2_params_ok(pkg.kdf) && master_password@.len() <= 0x3FFFFFFF) ==> (
                    e.kind == ErrorKind::RetryableAuth <==> legacy_auth_failed(
                        *pkg,
                        master_password@,
                    ))
                },
            },
    {
        let key = match derive_key(master_password, &pkg.kdf) {
            Ok(k) => k,
            Err(e) => {
                return Err(e);
            },
        };
        match crate::vault::open_with_key(&pkg.nonce_b64, &pkg.ciphertext_b64, &key, now_ms as i64) {
            Ok(b) => {
                self.unlocked = Some(b);
                self.unlock_deadline_ms = Some(now_ms + hold_ms);
                Ok(())
            },
            Err(e) => Err(e),
        }
    }

    /// Drop the unlocked bundle.
    pub fn lock(&mut self) -> (r: SpResult<()>)
        ensures
            r is Ok,
            final(self).unlocked is None,
            final(self).unlock_deadline_ms is None,
    {
        self.unlocked = None;
        self.unlock_deadline_ms = None;
        Ok(())
    }

    /// The unlocked bundle, while the hold lasts; `NotRetriable` once it
    /// lapsed or when the vault is locked.
    pub fn get_decrypted_bundle_if_unlocked(&self, now_ms: u64) -> (r: SpResult<CredentialBundle>)
        ensures
            match r {
                Ok(b) => {
                    &&& self.unlocked == Some(b)
                    &&& self.unlock_deadline_ms matches Some(d) && now_ms <= d
                },
                Err(e) => (self.unlocked is None || match self.unlock_deadline_ms {
                    Some(d) => now_ms > d,
                    None => true,
                }) && e.kind == ErrorKind::NotRetriable,
            },
    {
        if let (Some(b), Some(d)) = (&self.unlocked, &self.unlock_deadline_ms) {
            if now_ms <= *d {
                return Ok(clone_bundle(b));
            }
        }
        Err(SpError::new(ErrorKind::NotRetriable, String::from_str("vault locked"), now_ms as i64))
    }

    /// Connectivity testing is a stub.
    pub fn test_connectivity(&self, _master_password: &str, now: i64) -> (r: SpResult<()>)
        ensures
            r matches Err(e) && e.kind == ErrorKind::NotImplemented,
    {
        Err(err_not_implemented("vault.test_connectivity not implemented", now))
    }

    /// Export is a stub.
    pub fn export_package(&self, _master_password: &str, now: i64) -> (r: SpResult<
        VaultExportPackage,
    >)
        ensures
            r matches Err(e) && e.kind == ErrorKind::NotImplemented,
    {
        Err(err_not_implemented("vault.export_package not implemented", now))
    }

    /// Import is a stub.
    pub fn import_package(
        &self,
        _pkg: VaultExportPackage,
        _master_password: &str,
        now: i64,
    ) -> (r: SpResult<()>)
        ensures
            r matches Err(e) && e.kind == ErrorKind::NotImplemented,
    {
        Err(err_not_implemented("vault.import_package not implemented", now))
    }

    /// Password rotation is a stub.
    pub fn rotate_password(&self, _old_pw: &str, _new_pw: &str, now: i64) -> (r: SpResult<()>)
        ensures
            r matches Err(e) && e.kind == ErrorKind::NotImplemented,
    {
        Err(err_not_implemented("vault.rotate_password not implemented", now))
    }
}

} // verus!
