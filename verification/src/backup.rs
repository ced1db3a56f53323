//! Encrypted account backups: the payload's bytes are sealed with
//! AES-256-GCM under a key Argon2id derives from the password, and the
//! envelope carries salt, nonce and ciphertext in base64. Opening a sealed
//! envelope with the same password gives the payload back.
use vstd::prelude::*;
use vstd::string::StringSliceAdditionalSpecFns;

use aes_gcm::aead::Aead;
use aes_gcm::KeyInit;
use base64::Engine;

use crate::oauth::{b64_encode, base64_standard_encode, random_bytes, standard_alphabet};
use crate::text::{chars_of, decimal, decimal_vec, push_all, push_str, string_of};
use argon2::{Algorithm, Version};

verus! {

broadcast use vstd::string::group_string_axioms;

/// One account in a backup.
#[derive(Clone, Debug)]
pub struct BackupAccount {
    pub name: String,
    pub activation_date: String,
    pub json_info: String,
    pub plan_type: String,
    pub primary_used_percent: i32,
    pub primary_reset_at: i64,
    pub primary_window_minutes: Option<i64>,
    pub primary_window_present: bool,
    pub secondary_used_percent: i32,
    pub secondary_reset_at: i64,
    pub secondary_window_minutes: Option<i64>,
    pub secondary_window_present: bool,
    pub last_quota_checked_at: String,
    pub last_quota_error: String,
}

/// What a backup holds.
#[derive(Clone, Debug)]
pub struct BackupPayload {
    pub version: u32,
    pub accounts: Vec<BackupAccount>,
}

/// The envelope a backup file holds.
#[derive(Clone, Debug)]
pub struct EncryptedBackup {
    pub format: String,
    pub version: u32,
    pub kdf: String,
    pub salt: String,
    pub nonce: String,
    pub ciphertext: String,
}

/// What importing a backup would do.
#[derive(Clone, Debug)]
pub struct BackupPreview {
    pub version: u32,
    pub total_accounts: usize,
    pub duplicate_accounts: usize,
    pub new_accounts: usize,
    pub account_names: Vec<String>,
}

/// What importing a backup did.
#[derive(Clone, Debug)]
pub struct ImportBackupResult {
    pub imported: usize,
    pub skipped: usize,
    pub updated: usize,
}

pub open spec fn backup_format() -> Seq<char> {
    "codex-account-manager-backup"@
}

pub open spec fn backup_kdf() -> Seq<char> {
    kdf_label(backup_kdf_params())
}

pub open spec fn short_password_text() -> Seq<char> {
    "Backup password must be at least 8 characters"@
}

/// Bytes by their contents, or the error's text.
pub open spec fn res_bytes(r: Result<Vec<u8>, String>) -> Result<Seq<u8>, Seq<char>> {
    match r {
        Ok(b) => Ok(b@),
        Err(e) => Err(e@),
    }
}

// ---------------------------------------------------------------------------
// The primitives (base64, Argon2id, AES-256-GCM)
// ---------------------------------------------------------------------------

/// What `STANDARD.decode` of the base64 crate gives for a text: the bytes,
/// or the text of its error.
pub uninterp spec fn b64_std_decoded(s: Seq<char>) -> Result<Seq<u8>, Seq<char>>;

/// `STANDARD.decode` of the base64 crate. The engine requires canonical
/// padding and no stray trailing bits, so it accepts exactly the standard
/// padded encodings: what it returns is the one byte string the text
/// encodes, and it fails when the text encodes none. Which error it reports
/// then is the name `b64_std_decoded`.
#[verifier::external_body]
fn base64_standard_decode(s: &str) -> (r: Result<Vec<u8>, String>)
    ensures
        res_bytes(r) == b64_std_decoded(s@),
        match r {
            Ok(v) => forall|b: Seq<u8>|
                #[trigger] b64_encode(b, standard_alphabet(), true) == s@ <==> b == v@,
            Err(_) => forall|b: Seq<u8>| #[trigger] b64_encode(b, standard_alphabet(), true) != s@,
        },
{
    base64::engine::general_purpose::STANDARD.decode(s).map_err(|e| e.to_string())
}

/// The Argon2 variants.
#[derive(Clone, Copy, Debug, PartialEq, Eq, Structural)]
pub enum KdfAlgorithm {
    Argon2d,
    Argon2i,
    Argon2id,
}

/// The Argon2 versions.
#[derive(Clone, Copy, Debug, PartialEq, Eq, Structural)]
pub enum KdfVersion {
    V0x10,
    V0x13,
}

/// The settings a key is derived with: the variant, the version, memory in
/// KiB, passes, lanes and the key's length in bytes.
#[derive(Clone, Copy, Debug, PartialEq, Eq, Structural)]
pub struct KdfParams {
    pub algorithm: KdfAlgorithm,
    pub version: KdfVersion,
    pub m_cost: u32,
    pub t_cost: u32,
    pub p_cost: u32,
    pub output_len: u32,
}

/// The settings of the backup format: Argon2id, version 0x13, 19456 KiB,
/// two passes, one lane, a 32-byte key.
pub open spec fn backup_kdf_params() -> KdfParams {
    KdfParams {
        algorithm: KdfAlgorithm::Argon2id,
        version: KdfVersion::V0x13,
        m_cost: 19456,
        t_cost: 2,
        p_cost: 1,
        output_len: 32,
    }
}

/// The backup format's key-derivation settings.
pub fn backup_kdf_settings() -> (r: KdfParams)
    ensures
        r == backup_kdf_params(),
{
    KdfParams {
        algorithm: KdfAlgorithm::Argon2id,
        version: KdfVersion::V0x13,
        m_cost: 19456,
        t_cost: 2,
        p_cost: 1,
        output_len: 32,
    }
}

pub open spec fn algorithm_name(a: KdfAlgorithm) -> Seq<char> {
    match a {
        KdfAlgorithm::Argon2d => "argon2d"@,
        KdfAlgorithm::Argon2i => "argon2i"@,
        KdfAlgorithm::Argon2id => "argon2id"@,
    }
}

/// The label an envelope names its key derivation with, such as
/// `argon2id:m=19456,t=2,p=1`.
pub open spec fn kdf_label(p: KdfParams) -> Seq<char> {
    algorithm_name(p.algorithm) + ":m="@ + decimal(p.m_cost as nat) + ",t="@ + decimal(
        p.t_cost as nat,
    ) + ",p="@ + decimal(p.p_cost as nat)
}

/// The label of the settings.
pub fn kdf_label_text(p: KdfParams) -> (r: String)
    ensures
        r@ == kdf_label(p),
{
    let mut v = match p.algorithm {
        KdfAlgorithm::Argon2d => chars_of("argon2d"),
        KdfAlgorithm::Argon2i => chars_of("argon2i"),
        KdfAlgorithm::Argon2id => chars_of("argon2id"),
    };
    push_str(&mut v, ":m=");
    push_all(&mut v, &decimal_vec(p.m_cost as u64));
    push_str(&mut v, ",t=");
    push_all(&mut v, &decimal_vec(p.t_cost as u64));
    push_str(&mut v, ",p=");
    push_all(&mut v, &decimal_vec(p.p_cost as u64));
    string_of(&v)
}

/// The settings the argon2 crate's `Params::new` accepts: at least 8 KiB and
/// 8 KiB per lane, at least one pass, 1 to 2^24 - 1 lanes, a key of at least
/// 4 bytes.
pub open spec fn params_valid(p: KdfParams) -> bool {
    &&& p.m_cost >= 8
    &&& p.m_cost >= 8 * p.p_cost
    &&& p.t_cost >= 1
    &&& 1 <= p.p_cost <= 0xFFFFFF
    &&& p.output_len >= 4
}

/// What Argon2 of the argon2 crate derives from the password's bytes and
/// the salt under the settings: the key, or the step that failed (`true`
/// for hashing, `false` for the settings) with the crate's error text.
pub uninterp spec fn argon2_key(password: Seq<u8>, salt: Seq<u8>, params: KdfParams) -> Result<
    Seq<u8>,
    (bool, Seq<char>),
>;

/// A derivation's result by its contents.
pub open spec fn key_result(r: Result<Vec<u8>, (bool, String)>) -> Result<Seq<u8>, (bool, Seq<char>)> {
    match r {
        Ok(k) => Ok(k@),
        Err((hashing, e)) => Err((hashing, e@)),
    }
}

/// `Params::new(m_cost, t_cost, p_cost, Some(output_len))`, then
/// `Argon2::new(algorithm, version, params).hash_password_into` into a buffer
/// of `output_len` bytes, of the argon2 crate. The result is the name
/// `argon2_key`. `Params::new` refuses exactly the settings that are not
/// `params_valid`; `hash_password_into` refuses only a password or salt
/// longer than 2^32 - 1 bytes or a salt shorter than 8, so with valid
/// settings and such inputs a key of `output_len` bytes comes back. The
/// memory and key length are bounded so that the buffers can be allocated.
#[verifier::external_body]
fn argon2_derive(password: &str, salt: &[u8], params: KdfParams) -> (r: Result<Vec<u8>, (bool, String)>)
    requires
        params.p_cost <= 0xFFFFFF,
        params.m_cost as int * 1024 <= isize::MAX,
        params.output_len as int <= isize::MAX,
    ensures
        key_result(r) == argon2_key(password.spec_bytes(), salt@, params),
        r matches Ok(k) ==> k@.len() == params.output_len,
        (r matches Err(e) && !e.0) <==> !params_valid(params),
        params_valid(params) && 8 <= salt@.len() <= 0xFFFFFFFF && password.spec_bytes().len()
            <= 0xFFFFFFFF ==> r is Ok,
{
    let algorithm = match params.algorithm {
        KdfAlgorithm::Argon2d => Algorithm::Argon2d,
        KdfAlgorithm::Argon2i => Algorithm::Argon2i,
        KdfAlgorithm::Argon2id => Algorithm::Argon2id,
    };
    let version = match params.version { KdfVersion::V0x10 => Version::V0x10, KdfVersion::V0x13 => Version::V0x13 };
    let settings = argon2::Params::new(params.m_cost, params.t_cost, params.p_cost, Some(params.output_len as usize)).map_err(|e| (false, e.to_string()))?;
    let mut key = vec![0u8; params.output_len as usize];
    argon2::Argon2::new(algorithm, version, settings).hash_password_into(password.as_bytes(), salt, &mut key).map_err(|e| (true, e.to_string()))?;
    Ok(key)
}

/// The key `derive_backup_key` derives under the backup format's settings,
/// or its error: the argon2 crate's error after a prefix naming the step.
pub open spec fn backup_key_of(password: Seq<u8>, salt: Seq<u8>) -> Result<Seq<u8>, Seq<char>> {
    match argon2_key(password, salt, backup_kdf_params()) {
        Ok(k) => Ok(k),
        Err((hashing, e)) => Err(
            if hashing {
                "Failed to derive backup key: "@ + e
            } else {
                "Failed to configure backup encryption: "@ + e
            },
        ),
    }
}

/// The texts `derive_backup_key` reports a failure with: the argon2 crate's
/// error after a fixed prefix saying which step failed.
pub open spec fn argon2_failure_text(e: Seq<char>) -> bool {
    exists|detail: Seq<char>|
        e == "Failed to configure backup encryption: "@ + detail || e == "Failed to derive backup key: "@
            + detail
}

/// `derive_backup_key`: the 32-byte key under the backup format's settings,
/// or the error prefixed with the step that failed. The settings are valid,
/// so a salt of 8 or more bytes and a password of at most 2^32 - 1 bytes
/// always give a key.
fn derive_backup_key(password: &str, salt: &[u8], params: KdfParams) -> (r: Result<Vec<u8>, String>)
    requires
        params == backup_kdf_params(),
    ensures
        res_bytes(r) == backup_key_of(password.spec_bytes(), salt@),
        r matches Ok(k) ==> k@.len() == 32,
        r matches Err(e) ==> argon2_failure_text(e@),
        8 <= salt@.len() <= 0xFFFFFFFF && password.spec_bytes().len() <= 0xFFFFFFFF ==> r is Ok,
{
    match argon2_derive(password, salt, params) {
        Ok(k) => Ok(k),
        Err((hashing, e)) => {
            let prefix = if hashing {
                "Failed to derive backup key: "
            } else {
                "Failed to configure backup encryption: "
            };
            let r = prefixed_error(prefix, e);
            assert(argon2_failure_text(r@));
            Err(r)
        },
    }
}

/// What AES-256-GCM encryption under the key and nonce makes of the bytes
/// (ciphertext with its tag), when the aead crate accepts them.
pub uninterp spec fn aes_gcm_sealed(key: Seq<u8>, nonce: Seq<u8>, plaintext: Seq<u8>) -> Option<
    Seq<u8>,
>;

/// What AES-256-GCM decryption under the key and nonce makes of the bytes,
/// when they authenticate.
pub uninterp spec fn aes_gcm_opened(key: Seq<u8>, nonce: Seq<u8>, ciphertext: Seq<u8>) -> Option<
    Seq<u8>,
>;

/// `Aes256Gcm::new_from_slice(key)` then `encrypt(Nonce::from_slice(nonce),
/// plaintext)` of the aes-gcm crate, for a 32-byte key and a 12-byte nonce
/// (`Nonce::from_slice` panics on any other length). The result is the name
/// `aes_gcm_sealed`; the crate refuses only a plaintext longer than 2^36
/// bytes (`P_MAX`), so a shorter one is always sealed.
#[verifier::external_body]
fn aes256gcm_encrypt(key: &[u8], nonce: &[u8], plaintext: &[u8]) -> (r: Option<Vec<u8>>)
    requires
        key@.len() == 32,
        nonce@.len() == 12,
    ensures
        crate::auth::opt_bytes(r) == aes_gcm_sealed(key@, nonce@, plaintext@),
        plaintext@.len() <= 0x10_0000_0000 ==> r is Some,
{
    let cipher = aes_gcm::Aes256Gcm::new_from_slice(key).ok()?;
    cipher.encrypt(aes_gcm::Nonce::from_slice(nonce), plaintext).ok()
}

/// `Aes256Gcm::new_from_slice(key)` then `decrypt(Nonce::from_slice(nonce),
/// ciphertext)` of the aes-gcm crate, for a 32-byte key and a 12-byte nonce.
/// The result is the name `aes_gcm_opened`; and, as for any AEAD, a
/// ciphertext that encryption under the same key and nonce produced decrypts
/// to what was encrypted.
#[verifier::external_body]
fn aes256gcm_decrypt(key: &[u8], nonce: &[u8], ciphertext: &[u8]) -> (r: Option<Vec<u8>>)
    requires
        key@.len() == 32,
        nonce@.len() == 12,
    ensures
        crate::auth::opt_bytes(r) == aes_gcm_opened(key@, nonce@, ciphertext@),
        match r {
            Some(v) => forall|p: Seq<u8>|
                #[trigger] aes_gcm_sealed(key@, nonce@, p) == Some(ciphertext@) ==> v@ == p,
            None => forall|p: Seq<u8>| #[trigger] aes_gcm_sealed(key@, nonce@, p) != Some(ciphertext@),
        },
{
    let cipher = aes_gcm::Aes256Gcm::new_from_slice(key).ok()?;
    cipher.decrypt(aes_gcm::Nonce::from_slice(nonce), ciphertext).ok()
}

// ---------------------------------------------------------------------------
// Sealing and opening
// ---------------------------------------------------------------------------

/// The password check both directions make first: at least 8 characters.
pub fn check_backup_password(password: &str) -> (r: Result<(), String>)
    ensures
        password@.len() < 8 <==> r is Err,
        r matches Err(e) ==> e@ == short_password_text(),
{
    if chars_of(password).len() < 8 {
        Err(String::from_str("Backup password must be at least 8 characters"))
    } else {
        Ok(())
    }
}

/// `backup` is `plaintext` sealed under `password`: the envelope's fixed
/// fields, and some 16-byte salt and 12-byte nonce (in base64) under which
/// the key Argon2id derives encrypts `plaintext` to the ciphertext (in
/// base64).
pub open spec fn sealed(backup: EncryptedBackup, plaintext: Seq<u8>, password: &str) -> bool {
    &&& password@.len() >= 8
    &&& backup.format@ == backup_format()
    &&& backup.version == 1
    &&& backup.kdf@ == backup_kdf()
    &&& exists|salt: Seq<u8>, nonce: Seq<u8>, key: Seq<u8>, ct: Seq<u8>|
        {
            &&& salt.len() == 16
            &&& nonce.len() == 12
            &&& key.len() == 32
            &&& backup_key_of(password.spec_bytes(), salt) == Ok::<Seq<u8>, Seq<char>>(key)
            &&& aes_gcm_sealed(key, nonce, plaintext) == Some(ct)
            &&& backup.salt@ == b64_encode(salt, standard_alphabet(), true)
            &&& backup.nonce@ == b64_encode(nonce, standard_alphabet(), true)
            &&& backup.ciphertext@ == b64_encode(ct, standard_alphabet(), true)
        }
}

/// The text a refusal of the AES-GCM cipher is reported with.
pub open spec fn aead_failure_text() -> Seq<char> {
    "Failed to encrypt backup: aead::Error"@
}

/// Why sealing `plaintext` under `password` can fail: the password is short;
/// or, for a long enough password, Argon2id refused some 16-byte salt (its
/// error passed on), or the cipher refused the key it derived from some
/// 16-byte salt with some 12-byte nonce.
pub open spec fn seal_failure(e: Seq<char>, plaintext: Seq<u8>, password: &str) -> bool {
    ||| password@.len() < 8 && e == short_password_text()
    ||| password@.len() >= 8 && exists|salt: Seq<u8>|
        salt.len() == 16 && #[trigger] backup_key_of(password.spec_bytes(), salt) == Err::<
            Seq<u8>,
            Seq<char>,
        >(e)
    ||| password@.len() >= 8 && e == aead_failure_text() && exists|
        salt: Seq<u8>,
        nonce: Seq<u8>,
        key: Seq<u8>,
    |
        {
            &&& salt.len() == 16
            &&& nonce.len() == 12
            &&& key.len() == 32
            &&& #[trigger] backup_key_of(password.spec_bytes(), salt) == Ok::<
                Seq<u8>,
                Seq<char>,
            >(key)
            &&& #[trigger] aes_gcm_sealed(key, nonce, plaintext) is None
        }
}

proof fn argon2_text_is_not_short(e: Seq<char>)
    requires
        argon2_failure_text(e),
    ensures
        e != short_password_text(),
{
    reveal_strlit("Failed to configure backup encryption: ");
    reveal_strlit("Failed to derive backup key: ");
    reveal_strlit("Backup password must be at least 8 characters");
    let d = choose|detail: Seq<char>|
        e == "Failed to configure backup encryption: "@ + detail || e == "Failed to derive backup key: "@
            + detail;
    if e == "Failed to configure backup encryption: "@ + d {
        assert(e[0] == 'F');
    } else {
        assert(e[0] == 'F');
    }
    assert(short_password_text()[0] == 'B');
}

/// `encrypt_backup_payload` on the payload's serialized bytes: the envelope
/// of the bytes sealed under the password with a fresh random salt and
/// nonce. A password of fewer than 8 characters is refused, and only such a
/// password gets that error; otherwise the only failures are those of the
/// key derivation and the cipher, reported as `seal_failure` says, and
/// those happen only for a password of more than 2^32 - 1 bytes or a
/// payload of more than 2^36 bytes. The envelope's `kdf` label names the
/// very settings the key was derived with.
pub fn seal_backup(plaintext: &[u8], password: &str) -> (r: Result<EncryptedBackup, String>)
    ensures
        password@.len() < 8 ==> (r matches Err(e) && e@ == short_password_text()),
        (r matches Err(e) && e@ == short_password_text()) ==> password@.len() < 8,
        r matches Ok(b) ==> sealed(b, plaintext@, password),
        r matches Err(e) ==> seal_failure(e@, plaintext@, password),
        password@.len() >= 8 && password.spec_bytes().len() <= 0xFFFFFFFF && plaintext@.len()
            <= 0x10_0000_0000 ==> r is Ok,
{
    match check_backup_password(password) {
        Err(e) => {
            return Err(e);
        },
        Ok(()) => {},
    }
    let salt = random_bytes(16);
    let nonce = random_bytes(12);
    let params = backup_kdf_settings();
    let key = match derive_backup_key(password, salt.as_slice(), params) {
        Ok(k) => k,
        Err(e) => {
            proof {
                argon2_text_is_not_short(e@);
                assert(backup_key_of(password.spec_bytes(), salt@) == Err::<Seq<u8>, Seq<char>>(
                    e@,
                ));
            }
            return Err(e);
        },
    };
    let ct = match aes256gcm_encrypt(key.as_slice(), nonce.as_slice(), plaintext) {
        Some(c) => c,
        None => {
            let e = String::from_str("Failed to encrypt backup: aead::Error");
            proof {
                reveal_strlit("Failed to encrypt backup: aead::Error");
                reveal_strlit("Backup password must be at least 8 characters");
                assert(e@[0] != short_password_text()[0]);
                assert(backup_key_of(password.spec_bytes(), salt@) == Ok::<Seq<u8>, Seq<char>>(
                    key@,
                ));
                assert(aes_gcm_sealed(key@, nonce@, plaintext@) is None);
            }
            return Err(e);
        },
    };
    let b = EncryptedBackup {
        format: String::from_str("codex-account-manager-backup"),
        version: 1,
        kdf: kdf_label_text(params),
        salt: base64_standard_encode(salt.as_slice()),
        nonce: base64_standard_encode(nonce.as_slice()),
        ciphertext: base64_standard_encode(ct.as_slice()),
    };
    assert(sealed(b, plaintext@, password)) by {
        assert(backup_key_of(password.spec_bytes(), salt@) == Ok::<Seq<u8>, Seq<char>>(key@));
    }
    Ok(b)
}

/// A message and the text of an error after it.
pub open spec fn with_detail(prefix: Seq<char>, e: Seq<char>) -> Seq<char> {
    prefix + e
}

/// `decrypt_backup_payload` on an envelope: the decrypted payload bytes, or
/// why there are none.
pub open spec fn opened(backup: EncryptedBackup, password: &str) -> Result<Seq<u8>, Seq<char>> {
    if password@.len() < 8 {
        Err(short_password_text())
    } else if backup.format@ != backup_format() || backup.version != 1 {
        Err("Unsupported backup format"@)
    } else {
        match b64_std_decoded(backup.salt@) {
            Err(e) => Err(with_detail("Invalid backup salt: "@, e)),
            Ok(salt) => match b64_std_decoded(backup.nonce@) {
                Err(e) => Err(with_detail("Invalid backup nonce: "@, e)),
                Ok(nonce) => match b64_std_decoded(backup.ciphertext@) {
                    Err(e) => Err(with_detail("Invalid backup ciphertext: "@, e)),
                    Ok(ct) => if nonce.len() != 12 {
                        Err("Invalid backup nonce length"@)
                    } else {
                        match backup_key_of(password.spec_bytes(), salt) {
                            Err(e) => Err(e),
                            Ok(key) => if key.len() != 32 {
                                Err("Failed to initialize backup decryption"@)
                            } else {
                                match aes_gcm_opened(key, nonce, ct) {
                                    Some(p) => Ok(p),
                                    None => Err("Failed to decrypt backup. Check the password."@),
                                }
                            },
                        }
                    },
                },
            },
        }
    }
}

fn prefixed_error(prefix: &str, e: String) -> (r: String)
    ensures
        r@ == with_detail(prefix@, e@),
{
    let mut v = chars_of(prefix);
    push_all(&mut v, &chars_of(e.as_str()));
    string_of(&v)
}

/// `decrypt_backup_payload` on an envelope: the payload bytes it seals, or
/// why they cannot be had. An envelope sealed from some bytes under the same
/// password opens to exactly those bytes.
pub fn open_backup(backup: &EncryptedBackup, password: &str) -> (r: Result<Vec<u8>, String>)
    ensures
        res_bytes(r) == opened(*backup, password),
        forall|p: Seq<u8>| #[trigger] sealed(*backup, p, password) ==> (r matches Ok(v) && v@ == p),
{
    match check_backup_password(password) {
        Err(e) => {
            return Err(e);
        },
        Ok(()) => {},
    }
    let format_ok = crate::text::eq_str(&chars_of(backup.format.as_str()), "codex-account-manager-backup");
    if !format_ok || backup.version != 1 {
        return Err(String::from_str("Unsupported backup format"));
    }
    let salt = match base64_standard_decode(backup.salt.as_str()) {
        Ok(s) => s,
        Err(e) => {
            return Err(prefixed_error("Invalid backup salt: ", e));
        },
    };
    let nonce = match base64_standard_decode(backup.nonce.as_str()) {
        Ok(n) => n,
        Err(e) => {
            return Err(prefixed_error("Invalid backup nonce: ", e));
        },
    };
    let ct = match base64_standard_decode(backup.ciphertext.as_str()) {
        Ok(c) => c,
        Err(e) => {
            return Err(prefixed_error("Invalid backup ciphertext: ", e));
        },
    };
    if nonce.len() != 12 {
        return Err(String::from_str("Invalid backup nonce length"));
    }
    let params = backup_kdf_settings();
    let key = match derive_backup_key(password, salt.as_slice(), params) {
        Ok(k) => k,
        Err(e) => {
            return Err(e);
        },
    };
    if key.len() != 32 {
        return Err(String::from_str("Failed to initialize backup decryption"));
    }
    match aes256gcm_decrypt(key.as_slice(), nonce.as_slice(), ct.as_slice()) {
        Some(p) => Ok(p),
        None => Err(String::from_str("Failed to decrypt backup. Check the password.")),
    }
}

// ---------------------------------------------------------------------------
// Importing
// ---------------------------------------------------------------------------

/// The payload version this manager writes and reads.
pub fn check_payload_version(version: u32) -> (r: Result<(), String>)
    ensures
        version == 1 <==> r is Ok,
        r matches Err(e) ==> e@ == "Unsupported backup payload version"@,
{
    if version != 1 {
        Err(String::from_str("Unsupported backup payload version"))
    } else {
        Ok(())
    }
}

/// What an import does with one account of the backup.
#[derive(Clone, Copy, Debug, PartialEq, Eq, Structural)]
pub enum ImportAction {
    Skip,
    Merge(i64),
    Insert,
}

/// The import strategies: `add`, `skip_duplicates`, `merge_by_account_id`.
pub open spec fn import_plan(strategy: Seq<char>, existing_id: Option<i64>) -> Result<
    ImportAction,
    Seq<char>,
> {
    if strategy == "skip_duplicates"@ && existing_id is Some {
        Ok(ImportAction::Skip)
    } else if strategy == "merge_by_account_id"@ && existing_id is Some {
        Ok(ImportAction::Merge(existing_id->0))
    } else if strategy == "add"@ || strategy == "skip_duplicates"@ || strategy
        == "merge_by_account_id"@ {
        Ok(ImportAction::Insert)
    } else {
        Err("Unsupported import strategy"@)
    }
}

/// The decision `import_encrypted_backup` makes for an account: skip or
/// merge an account that already exists when the strategy says so, insert
/// otherwise; an unknown strategy is an error.
pub fn import_action(strategy: &str, existing_id: Option<i64>) -> (r: Result<ImportAction, String>)
    ensures
        match r {
            Ok(a) => import_plan(strategy@, existing_id) == Ok::<ImportAction, Seq<char>>(a),
            Err(e) => import_plan(strategy@, existing_id) == Err::<ImportAction, Seq<char>>(e@),
        },
{
    let sv = chars_of(strategy);
    let skip = crate::text::eq_str(&sv, "skip_duplicates");
    let merge = crate::text::eq_str(&sv, "merge_by_account_id");
    let add = crate::text::eq_str(&sv, "add");
    match existing_id {
        Some(id) => {
            if skip {
                return Ok(ImportAction::Skip);
            }
            if merge {
                return Ok(ImportAction::Merge(id));
            }
        },
        None => {},
    }
    if add || skip || merge {
        Ok(ImportAction::Insert)
    } else {
        Err(String::from_str("Unsupported import strategy"))
    }
}

/// The account is already in the store: the account id its `auth.json`
/// names is among the stored ones.
pub open spec fn is_duplicate(account: BackupAccount, existing: Seq<Seq<char>>) -> bool {
    match crate::auth::account_id_of(account.json_info@) {
        Some(id) => existing.contains(id),
        None => false,
    }
}

/// How many accounts are already in the store.
pub open spec fn duplicate_count(accounts: Seq<BackupAccount>, existing: Seq<Seq<char>>) -> nat
    decreases accounts.len(),
{
    if accounts.len() == 0 {
        0
    } else {
        duplicate_count(accounts.drop_last(), existing) + if is_duplicate(accounts.last(), existing) {
            1nat
        } else {
            0nat
        }
    }
}

fn contains_string(list: &[String], item: &Vec<char>) -> (r: bool)
    ensures
        r == list@.map_values(|s: String| s@).contains(item@),
{
    let ghost view = list@.map_values(|s: String| s@);
    let mut i: usize = 0;
    while i < list.len()
        invariant
            i <= list@.len(),
            view == list@.map_values(|s: String| s@),
            forall|k: int| 0 <= k < i ==> view[k] != item@,
        decreases list@.len() - i,
    {
        if crate::text::eq_vec(&chars_of(list[i].as_str()), item) {
            assert(view[i as int] == item@);
            return true;
        }
        i += 1;
    }
    false
}

/// `preview_encrypted_backup` on the backup's accounts and the account ids
/// already stored: how many accounts there are, how many are already
/// stored, how many are new, and the first eight names.
pub fn backup_preview(version: u32, accounts: &[BackupAccount], existing: &[String]) -> (r:
    BackupPreview)
    ensures
        r.version == version,
        r.total_accounts == accounts@.len(),
        r.duplicate_accounts == duplicate_count(accounts@, existing@.map_values(|s: String| s@)),
        r.new_accounts == accounts@.len() - r.duplicate_accounts,
        r.account_names@.map_values(|s: String| s@) == accounts@.take(
            if accounts@.len() < 8 {
                accounts@.len() as int
            } else {
                8
            },
        ).map_values(|a: BackupAccount| a.name@),
{
    let ghost ex = existing@.map_values(|s: String| s@);
    let mut dup: usize = 0;
    let mut i: usize = 0;
    while i < accounts.len()
        invariant
            i <= accounts@.len(),
            ex == existing@.map_values(|s: String| s@),
            dup == duplicate_count(accounts@.take(i as int), ex),
            dup <= i,
        decreases accounts@.len() - i,
    {
        assert(accounts@.take(i + 1).drop_last() =~= accounts@.take(i as int));
        match crate::auth::extract_account_id(accounts[i].json_info.as_str()) {
            Some(id) => {
                if contains_string(existing, &chars_of(id.as_str())) {
                    dup += 1;
                }
            },
            None => {},
        }
        i += 1;
    }
    assert(accounts@.take(i as int) =~= accounts@);
    let mut names: Vec<String> = Vec::new();
    let limit: usize = if accounts.len() < 8 {
        accounts.len()
    } else {
        8
    };
    let mut k: usize = 0;
    while k < limit
        invariant
            k <= limit,
            limit <= accounts@.len(),
            limit == (if accounts@.len() < 8 {
                accounts@.len()
            } else {
                8
            }),
            names@.len() == k,
            forall|j: int| 0 <= j < k ==> #[trigger] names@[j]@ == accounts@[j].name@,
        decreases limit - k,
    {
        let nm = accounts[k].name.clone();
        names.push(nm);
        k += 1;
    }
    assert(names@.map_values(|s: String| s@) =~= accounts@.take(limit as int).map_values(
        |a: BackupAccount| a.name@,
    ));
    BackupPreview {
        version,
        total_accounts: accounts.len(),
        duplicate_accounts: dup,
        new_accounts: accounts.len() - dup,
        account_names: names,
    }
}

/// Importing an account: every supported strategy inserts an account that
/// is not stored yet; for a stored one `add` inserts it again,
/// `skip_duplicates` skips it and `merge_by_account_id` merges into it; any
/// other strategy is refused.
pub proof fn law_import_actions(strategy: Seq<char>, id: i64)
    ensures
        import_plan("add"@, None) == Ok::<ImportAction, Seq<char>>(ImportAction::Insert),
        import_plan("skip_duplicates"@, None) == Ok::<ImportAction, Seq<char>>(ImportAction::Insert),
        import_plan("merge_by_account_id"@, None) == Ok::<ImportAction, Seq<char>>(
            ImportAction::Insert,
        ),
        import_plan("add"@, Some(id)) == Ok::<ImportAction, Seq<char>>(ImportAction::Insert),
        import_plan("skip_duplicates"@, Some(id)) == Ok::<ImportAction, Seq<char>>(ImportAction::Skip),
        import_plan("merge_by_account_id"@, Some(id)) == Ok::<ImportAction, Seq<char>>(
            ImportAction::Merge(id),
        ),
        strategy != "add"@ && strategy != "skip_duplicates"@ && strategy != "merge_by_account_id"@
            ==> import_plan(strategy, Some(id)) == Err::<ImportAction, Seq<char>>(
            "Unsupported import strategy"@,
        ) && import_plan(strategy, None) == Err::<ImportAction, Seq<char>>(
            "Unsupported import strategy"@,
        ),
{
    reveal_strlit("add");
    reveal_strlit("skip_duplicates");
    reveal_strlit("merge_by_account_id");
    assert("add"@.len() != "skip_duplicates"@.len());
    assert("add"@.len() != "merge_by_account_id"@.len());
    assert("skip_duplicates"@.len() != "merge_by_account_id"@.len());
}

} // verus!
