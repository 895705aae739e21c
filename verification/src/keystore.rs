//! Encrypted storage of API keys: a key derived with Argon2 from a machine
//! identifier and a salt, AES-256-GCM with a fresh random nonce per secret,
//! and the nonce and ciphertext kept together as standard Base64.

use vstd::prelude::*;
use vstd::utf8::{decode_utf8, encode_utf8, valid_utf8};
use crate::error::ErrorView;
use crate::config::AppConfig;
use aes_gcm::aead::{Aead, KeyInit};
use base64::Engine;
use rand::RngCore;

verus! {

#[verifier::external_type_specification]
#[verifier::external_body]
pub struct ExArgon2Error(argon2::Error);

#[verifier::external_type_specification]
#[verifier::external_body]
pub struct ExAeadError(aes_gcm::aead::Error);

#[verifier::external_type_specification]
#[verifier::external_body]
pub struct ExBase64DecodeError(base64::DecodeError);

#[verifier::external_type_specification]
#[verifier::external_body]
pub struct ExFromUtf8Error(std::string::FromUtf8Error);

#[verifier::external_type_specification]
#[verifier::external_body]
pub struct ExRandError(rand::Error);

/// The 32-byte key Argon2id (default parameters) derives from a password and
/// a salt.
pub uninterp spec fn argon2_key(pwd: Seq<u8>, salt: Seq<u8>) -> Seq<u8>;

/// AES-256-GCM ciphertext (with its 16-byte tag appended) of `plaintext`
/// under `key` and `nonce`, without associated data.
pub uninterp spec fn aes256gcm_seal(key: Seq<u8>, nonce: Seq<u8>, plaintext: Seq<u8>) -> Seq<u8>;

/// AES-256-GCM decryption of `ciphertext` (tag appended) under `key` and
/// `nonce`: the plaintext, or `None` when the tag does not authenticate it.
pub uninterp spec fn aes256gcm_open(key: Seq<u8>, nonce: Seq<u8>, ciphertext: Seq<u8>) -> Option<
    Seq<u8>,
>;

/// Standard Base64 (with padding) of `bytes`.
pub uninterp spec fn base64_encode(bytes: Seq<u8>) -> Seq<char>;

/// The bytes whose standard Base64 is `text`, or `None` when `text` is not
/// canonical standard Base64.
pub uninterp spec fn base64_decode(text: Seq<char>) -> Option<Seq<u8>>;

/// Argon2 refuses a password over `u32::MAX` bytes and a salt of fewer than
/// 8 or more than `u32::MAX` bytes.
pub open spec fn argon2_accepts(pwd_len: nat, salt_len: nat) -> bool {
    pwd_len <= 0xFFFF_FFFF && 8 <= salt_len <= 0xFFFF_FFFF
}

/// AES-GCM encrypts at most 2^36 bytes.
pub open spec fn aes_max_plaintext() -> nat {
    0x10_0000_0000
}

/// `Argon2::default().hash_password_into(pwd, salt, &mut [0u8; 32])`: with
/// the default parameters and a 32-byte output, it fails exactly when
/// `verify_inputs` refuses the lengths; otherwise the output is the derived
/// key.
#[verifier::external_body]
fn argon2_derive(pwd: &[u8], salt: &[u8]) -> (r: Result<[u8; 32], argon2::Error>)
    ensures
        r is Ok <==> argon2_accepts(pwd@.len(), salt@.len()),
        r matches Ok(k) ==> k@ == argon2_key(pwd@, salt@),
{
    let mut key = [0u8; 32];
    argon2::Argon2::default().hash_password_into(pwd, salt, &mut key).map(|_| key)
}

/// `Aes256Gcm::new(key).encrypt(nonce, plaintext)`: fails only for a
/// plaintext over 2^36 bytes; the ciphertext is 16 bytes longer than the
/// plaintext and decrypts, under the same key and nonce, to the plaintext.
#[verifier::external_body]
fn aes256gcm_encrypt(key: &[u8; 32], nonce: &[u8; 12], plaintext: &[u8]) -> (r: Result<
    Vec<u8>,
    aes_gcm::aead::Error,
>)
    ensures
        r is Ok <==> plaintext@.len() <= aes_max_plaintext(),
        r matches Ok(c) ==> {
            &&& c@ == aes256gcm_seal(key@, nonce@, plaintext@)
            &&& c@.len() == plaintext@.len() + 16
            &&& aes256gcm_open(key@, nonce@, c@) == Some(plaintext@)
        },
{
    let cipher = aes_gcm::Aes256Gcm::new(&(*key).into());
    cipher.encrypt(aes_gcm::Nonce::from_slice(nonce), plaintext)
}

/// `Aes256Gcm::new(key).decrypt(nonce, ciphertext)`: the plaintext when the
/// tag authenticates the ciphertext, else an error.
#[verifier::external_body]
fn aes256gcm_decrypt(key: &[u8; 32], nonce: &[u8; 12], ciphertext: &[u8]) -> (r: Result<
    Vec<u8>,
    aes_gcm::aead::Error,
>)
    ensures
        match r {
            Ok(p) => aes256gcm_open(key@, nonce@, ciphertext@) == Some(p@),
            Err(_) => aes256gcm_open(key@, nonce@, ciphertext@) is None,
        },
{
    let cipher = aes_gcm::Aes256Gcm::new(&(*key).into());
    cipher.decrypt(aes_gcm::Nonce::from_slice(nonce), ciphertext)
}

/// `STANDARD.encode(bytes)`: standard Base64 with padding, which
/// `STANDARD.decode` maps back to the bytes. The length bound keeps the
/// encoded length from overflowing, where the crate would panic.
#[verifier::external_body]
pub(crate) fn base64_encode_bytes(bytes: &[u8]) -> (r: String)
    requires
        bytes@.len() <= 0x1000_0000_0000_0000,
    ensures
        r@ == base64_encode(bytes@),
        base64_decode(r@) == Some(bytes@),
{
    base64::engine::general_purpose::STANDARD.encode(bytes)
}

/// `STANDARD.decode(text)`: the decoded bytes, or an error when `text` is
/// not canonical standard Base64.
#[verifier::external_body]
fn base64_decode_text(text: &str) -> (r: Result<Vec<u8>, base64::DecodeError>)
    ensures
        match r {
            Ok(b) => base64_decode(text@) == Some(b@),
            Err(_) => base64_decode(text@) is None,
        },
{
    base64::engine::general_purpose::STANDARD.decode(text)
}

/// Twelve bytes from the operating system's random source
/// (`OsRng.try_fill_bytes`), or its error when the source cannot be read.
/// Nothing is promised of the bytes' values.
#[verifier::external_body]
fn random_nonce() -> (r: Result<[u8; 12], rand::Error>) {
    let mut nonce = [0u8; 12];
    rand::rngs::OsRng.try_fill_bytes(&mut nonce).map(|_| nonce)
}

/// `String::from_utf8(bytes)`: the text when the bytes are valid UTF-8.
#[verifier::external_body]
fn string_from_utf8(bytes: Vec<u8>) -> (r: Result<String, std::string::FromUtf8Error>)
    ensures
        match r {
            Ok(s) => valid_utf8(bytes@) && s@ == decode_utf8(bytes@),
            Err(_) => !valid_utf8(bytes@),
        },
{
    String::from_utf8(bytes)
}

/// Why decryption failed.
#[derive(Clone, Copy, Debug, PartialEq, Eq, Structural)]
pub enum DecryptFailure {
    Base64,
    Length,
    Cipher,
    Utf8,
}

/// What decrypting `encoded` under `key` gives: Base64-decode it, split the
/// first 12 bytes off as the nonce, open the rest with AES-256-GCM, and read
/// the plaintext as UTF-8.
pub open spec fn decrypt_outcome(key: Seq<u8>, encoded: Seq<char>) -> Result<Seq<char>, DecryptFailure> {
    match base64_decode(encoded) {
        None => Err(DecryptFailure::Base64),
        Some(c) => if c.len() < 12 {
            Err(DecryptFailure::Length)
        } else {
            match aes256gcm_open(key, c.take(12), c.skip(12)) {
                None => Err(DecryptFailure::Cipher),
                Some(p) => if valid_utf8(p) {
                    Ok(decode_utf8(p))
                } else {
                    Err(DecryptFailure::Utf8)
                },
            }
        },
    }
}

/// What encrypting `plaintext` under `key` with `nonce` gives: the Base64 of
/// the nonce followed by the AES-256-GCM ciphertext of the plaintext's UTF-8
/// bytes, or `None` when those bytes are too many for AES-GCM.
pub open spec fn encrypt_outcome(key: Seq<u8>, nonce: Seq<u8>, plaintext: Seq<char>) -> Option<Seq<char>> {
    if encode_utf8(plaintext).len() <= aes_max_plaintext() {
        Some(base64_encode(nonce + aes256gcm_seal(key, nonce, encode_utf8(plaintext))))
    } else {
        None
    }
}

/// The layout of an encrypted secret: its Base64 decodes to the 12-byte
/// nonce followed by the ciphertext and its 16-byte tag, so to 12 + n + 16
/// bytes for n bytes of UTF-8 plaintext.
pub open spec fn sealed_layout(s: Seq<char>, nonce: Seq<u8>, plaintext: Seq<char>) -> bool {
    &&& base64_decode(s) matches Some(b)
    &&& b.len() == 12 + encode_utf8(plaintext).len() + 16
    &&& b.take(12) == nonce
}

/// The start of the message of an error for each failure.
pub open spec fn failure_prefix(f: DecryptFailure) -> Seq<char> {
    match f {
        DecryptFailure::Base64 => "Base64 decode failed: "@,
        DecryptFailure::Length => "Invalid ciphertext length"@,
        DecryptFailure::Cipher => "Decryption failed: "@,
        DecryptFailure::Utf8 => "UTF-8 decode failed: "@,
    }
}

/// A configuration error whose message starts with `prefix`.
pub open spec fn config_error_starting(e: ErrorView, prefix: Seq<char>) -> bool {
    match e {
        ErrorView::Config(m) => prefix.is_prefix_of(m),
        _ => false,
    }
}

/// Encrypts and decrypts API keys under a key derived from the machine.
pub struct KeyStore {
    key: [u8; 32],
}

impl View for KeyStore {
    type V = Seq<u8>;

    closed spec fn view(&self) -> Seq<u8> {
        self.key@
    }
}

/// `prefix` followed by `detail`.
fn config_error(prefix: &str, detail: String) -> (e: crate::error::AppError)
    ensures
        e@ == ErrorView::Config(prefix@ + detail@),
{
    let mut m = String::from_str(prefix);
    m.append(detail.as_str());
    crate::error::AppError::Config(m)
}

impl KeyStore {
    /// A key store whose key Argon2 derives from `machine_id` (the password)
    /// and `salt`; refused, with a `Key derivation failed: ...` error, when
    /// Argon2 refuses their lengths.
    pub fn new(machine_id: &[u8], salt: &[u8]) -> (r: Result<KeyStore, crate::error::AppError>)
        ensures
            r is Ok <==> argon2_accepts(machine_id@.len(), salt@.len()),
            r matches Ok(ks) ==> ks@ == argon2_key(machine_id@, salt@),
            r matches Err(e) ==> config_error_starting(e@, "Key derivation failed: "@),
    {
        match argon2_derive(machine_id, salt) {
            Ok(key) => Ok(KeyStore { key }),
            Err(e) => {
                let d = e.to_string();
                Err(config_error("Key derivation failed: ", d))
            },
        }
    }

    /// Encrypts `plaintext` with a fresh random nonce. Whatever nonce comes,
    /// the result is what [`KeyStore::encrypt_with_nonce`] gives for it; when
    /// the random source cannot be read, the error says so.
    pub fn encrypt(&self, plaintext: &str) -> (r: Result<String, crate::error::AppError>)
        ensures
            r is Ok ==> encode_utf8(plaintext@).len() <= aes_max_plaintext(),
            encode_utf8(plaintext@).len() > aes_max_plaintext() ==> r is Err,
            r matches Ok(s) ==> exists|nonce: Seq<u8>|
                nonce.len() == 12 && encrypt_outcome(self@, nonce, plaintext@) == Some(#[trigger] s@)
                    && sealed_layout(s@, nonce, plaintext@),
            r matches Ok(s) ==> decrypt_outcome(self@, s@) == Ok::<Seq<char>, DecryptFailure>(plaintext@),
            r matches Err(e) ==> config_error_starting(e@, "Encryption failed: "@) || config_error_starting(
                e@,
                "Random number generation failed: "@,
            ),
    {
        match random_nonce() {
            Ok(nonce) => self.encrypt_with_nonce(&nonce, plaintext),
            Err(e) => {
                let d = e.to_string();
                Err(config_error("Random number generation failed: ", d))
            },
        }
    }

    /// Encrypts `plaintext` with `nonce`: the Base64 of the nonce followed by
    /// the AES-256-GCM ciphertext of the UTF-8 bytes. Decrypting the result
    /// gives `plaintext` back.
    pub fn encrypt_with_nonce(&self, nonce: &[u8; 12], plaintext: &str) -> (r: Result<String, crate::error::AppError>)
        ensures
            match r {
                Ok(s) => encrypt_outcome(self@, nonce@, plaintext@) == Some(s@),
                Err(e) => encrypt_outcome(self@, nonce@, plaintext@) is None && config_error_starting(
                    e@,
                    "Encryption failed: "@,
                ),
            },
            r matches Ok(s) ==> decrypt_outcome(self@, s@) == Ok::<Seq<char>, DecryptFailure>(plaintext@),
            r matches Ok(s) ==> sealed_layout(s@, nonce@, plaintext@),
    {
        let bytes = plaintext.as_bytes();
        match aes256gcm_encrypt(&self.key, nonce, bytes) {
            Err(e) => {
                let d = e.to_string();
                Err(config_error("Encryption failed: ", d))
            },
            Ok(ct) => {
                let mut combined: Vec<u8> = Vec::new();
                let mut i: usize = 0;
                while i < 12
                    invariant
                        i <= 12,
                        combined@ == nonce@.take(i as int),
                    decreases 12 - i,
                {
                    combined.push(nonce[i]);
                    i = i + 1;
                    assert(combined@ =~= nonce@.take(i as int));
                }
                assert(nonce@.take(12) =~= nonce@);
                let n = ct.len();
                let mut j: usize = 0;
                while j < n
                    invariant
                        j <= n,
                        n == ct@.len(),
                        combined@ == nonce@ + ct@.take(j as int),
                    decreases n - j,
                {
                    combined.push(ct[j]);
                    j = j + 1;
                    assert(combined@ =~= nonce@ + ct@.take(j as int));
                }
                assert(ct@.take(n as int) =~= ct@);
                let s = base64_encode_bytes(combined.as_slice());
                proof {
                    assert(combined@.take(12) =~= nonce@);
                    assert(combined@.skip(12) =~= ct@);
                    assert(combined@.len() == 12 + ct@.len());
                    vstd::utf8::encode_utf8_valid_utf8(plaintext@);
                    vstd::utf8::encode_utf8_decode_utf8(plaintext@);
                }
                Ok(s)
            },
        }
    }

    /// Decrypts what [`KeyStore::encrypt`] produced. Fails with a
    /// `Base64 decode failed: ...`, `Invalid ciphertext length`,
    /// `Decryption failed: ...` or `UTF-8 decode failed: ...` error.
    pub fn decrypt(&self, encoded: &str) -> (r: Result<String, crate::error::AppError>)
        ensures
            match r {
                Ok(s) => decrypt_outcome(self@, encoded@) == Ok::<Seq<char>, DecryptFailure>(s@),
                Err(e) => decrypt_outcome(self@, encoded@) matches Err(f) && config_error_starting(
                    e@,
                    failure_prefix(f),
                ) && (f == DecryptFailure::Length ==> e@ == ErrorView::Config(failure_prefix(f))),
            },
    {
        let combined = match base64_decode_text(encoded) {
            Ok(c) => c,
            Err(e) => {
                let d = e.to_string();
                return Err(config_error("Base64 decode failed: ", d));
            },
        };
        if combined.len() < 12 {
            return Err(crate::error::AppError::Config(String::from_str("Invalid ciphertext length")));
        }
        let mut nonce = [0u8; 12];
        let mut i: usize = 0;
        while i < 12
            invariant
                i <= 12,
                12 <= combined@.len(),
                forall|k: int| 0 <= k < i ==> nonce@[k] == combined@[k],
            decreases 12 - i,
        {
            nonce.set(i, combined[i]);
            i = i + 1;
        }
        assert(nonce@ =~= combined@.take(12));
        let n = combined.len();
        let mut ct: Vec<u8> = Vec::new();
        let mut j: usize = 12;
        while j < n
            invariant
                12 <= j <= n,
                n == combined@.len(),
                ct@ == combined@.subrange(12, j as int),
            decreases n - j,
        {
            ct.push(combined[j]);
            j = j + 1;
            assert(ct@ =~= combined@.subrange(12, j as int));
        }
        assert(ct@ =~= combined@.skip(12));
        let plain = match aes256gcm_decrypt(&self.key, &nonce, ct.as_slice()) {
            Ok(p) => p,
            Err(e) => {
                let d = e.to_string();
                return Err(config_error("Decryption failed: ", d));
            },
        };
        match string_from_utf8(plain) {
            Ok(s) => Ok(s),
            Err(e) => {
                let d = e.to_string();
                Err(config_error("UTF-8 decode failed: ", d))
            },
        }
    }
}


/// `b` is `a` with possibly other credentials: every setting but the two API
/// keys and the object-storage secret is the same.
pub open spec fn same_settings(a: AppConfig, b: AppConfig) -> bool {
    &&& a.asr.provider == b.asr.provider
    &&& a.asr.model == b.asr.model
    &&& a.asr.language == b.asr.language
    &&& a.asr.workspace_id == b.asr.workspace_id
    &&& a.translate.provider == b.translate.provider
    &&& a.translate.base_url == b.translate.base_url
    &&& a.translate.model == b.translate.model
    &&& a.translate.target_lang == b.translate.target_lang
    &&& match (a.oss, b.oss) {
        (None, None) => true,
        (Some(x), Some(y)) => x.endpoint == y.endpoint && x.bucket == y.bucket && x.access_key_id
            == y.access_key_id && x.path_prefix == y.path_prefix,
        _ => false,
    }
}

/// Each credential of `stored` decrypts under `key` to the same credential
/// of `plain`, and the other settings agree.
pub open spec fn keys_sealed(key: Seq<u8>, plain: AppConfig, stored: AppConfig) -> bool {
    &&& same_settings(plain, stored)
    &&& decrypt_outcome(key, stored.asr.api_key@) == Ok::<Seq<char>, DecryptFailure>(plain.asr.api_key@)
    &&& decrypt_outcome(key, stored.translate.api_key@) == Ok::<Seq<char>, DecryptFailure>(
        plain.translate.api_key@,
    )
    &&& match (plain.oss, stored.oss) {
        (Some(x), Some(y)) => decrypt_outcome(key, y.access_key_secret@) == Ok::<Seq<char>, DecryptFailure>(
            x.access_key_secret@,
        ),
        _ => true,
    }
}

/// Every credential of `stored` decrypts under `key`.
pub open spec fn keys_open(key: Seq<u8>, stored: AppConfig) -> bool {
    &&& decrypt_outcome(key, stored.asr.api_key@) is Ok
    &&& decrypt_outcome(key, stored.translate.api_key@) is Ok
    &&& match stored.oss {
        Some(y) => decrypt_outcome(key, y.access_key_secret@) is Ok,
        None => true,
    }
}

fn clone_opt(s: &Option<String>) -> (r: Option<String>)
    ensures
        r == *s,
{
    match s {
        Some(t) => Some(t.clone()),
        None => None,
    }
}

/// `config` with its credentials replaced: the API keys by `asr_key` and
/// `translate_key`, the object-storage secret (when there is object
/// storage) by `oss_secret`.
fn with_credentials(config: &AppConfig, asr_key: String, translate_key: String, oss_secret: String) -> (r: AppConfig)
    ensures
        same_settings(*config, r),
        r.asr.api_key == asr_key,
        r.translate.api_key == translate_key,
        r.oss matches Some(o) ==> o.access_key_secret == oss_secret,
{
    AppConfig {
        asr: crate::config::AsrConfig {
            provider: config.asr.provider.clone(),
            model: config.asr.model.clone(),
            api_key: asr_key,
            language: config.asr.language.clone(),
            workspace_id: clone_opt(&config.asr.workspace_id),
        },
        translate: crate::config::TranslateConfig {
            provider: config.translate.provider.clone(),
            base_url: config.translate.base_url.clone(),
            model: config.translate.model.clone(),
            api_key: translate_key,
            target_lang: config.translate.target_lang.clone(),
        },
        oss: match &config.oss {
            Some(o) => Some(
                crate::config::OssConfig {
                    endpoint: o.endpoint.clone(),
                    bucket: o.bucket.clone(),
                    access_key_id: o.access_key_id.clone(),
                    access_key_secret: oss_secret,
                    path_prefix: clone_opt(&o.path_prefix),
                },
            ),
            None => None,
        },
    }
}

impl KeyStore {
    /// The configuration to store: `config` with both API keys and the
    /// object-storage secret encrypted.
    pub fn seal_keys(&self, config: &AppConfig) -> (r: Result<AppConfig, crate::error::AppError>)
        ensures
            r matches Ok(c) ==> keys_sealed(self@, *config, c),
            r matches Err(e) ==> config_error_starting(e@, "Encryption failed: "@) || config_error_starting(
                e@,
                "Random number generation failed: "@,
            ),
    {
        let asr_key = self.encrypt(config.asr.api_key.as_str())?;
        let translate_key = self.encrypt(config.translate.api_key.as_str())?;
        let oss_secret = match &config.oss {
            Some(o) => self.encrypt(o.access_key_secret.as_str())?,
            None => String::new(),
        };
        Ok(with_credentials(config, asr_key, translate_key, oss_secret))
    }

    /// The configuration in use for a stored one: its credentials decrypted
    /// when all of them decrypt; otherwise (a file written before keys were
    /// encrypted) the stored configuration as it is.
    pub fn open_keys(&self, stored: AppConfig) -> (r: AppConfig)
        ensures
            keys_open(self@, stored) ==> keys_sealed(self@, r, stored),
            !keys_open(self@, stored) ==> r == stored,
    {
        let asr_key = match self.decrypt(stored.asr.api_key.as_str()) {
            Ok(k) => k,
            Err(_) => {
                return stored;
            },
        };
        let translate_key = match self.decrypt(stored.translate.api_key.as_str()) {
            Ok(k) => k,
            Err(_) => {
                return stored;
            },
        };
        let oss_secret = match &stored.oss {
            Some(o) => match self.decrypt(o.access_key_secret.as_str()) {
                Ok(k) => k,
                Err(_) => {
                    return stored;
                },
            },
            None => String::new(),
        };
        let r = with_credentials(&stored, asr_key, translate_key, oss_secret);
        r
    }
}
} // verus!
