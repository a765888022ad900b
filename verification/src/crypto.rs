//! AES-256-GCM encryption with a random nonce prepended, and key providers.
use vstd::prelude::*;
use vstd::slice::{slice_subrange, slice_to_vec};
use crate::error::{AppError, ErrorCode};
use aes_gcm::aead::Aead;
use aes_gcm::KeyInit;

verus! {

/// The ciphertext-with-tag that AES-256-GCM produces for `plaintext` under
/// `key` and `nonce` (no associated data), or `None` where the cipher refuses.
pub uninterp spec fn aes256gcm_seal(key: Seq<u8>, nonce: Seq<u8>, plaintext: Seq<u8>) -> Option<Seq<u8>>;

/// The plaintext AES-256-GCM recovers from `ciphertext` under `key` and
/// `nonce`, or `None` when authentication fails.
pub uninterp spec fn aes256gcm_open(key: Seq<u8>, nonce: Seq<u8>, ciphertext: Seq<u8>) -> Option<Seq<u8>>;

/// The opaque error of the `aead` traits.
#[verifier::external_type_specification]
#[verifier::external_body]
pub struct ExAeadError(aes_gcm::Error);

/// The longest plaintext AES-GCM encrypts: 2^36 bytes.
pub open spec fn aes_gcm_max_plaintext() -> nat {
    68719476736
}

/// Builds the cipher for `key` with `KeyInit::new` and calls `Aead::encrypt`
/// (no associated data). The result is the cipher's output for these
/// arguments, named `aes256gcm_seal`. The cipher refuses exactly the
/// plaintexts longer than 2^36 bytes, and its output is the encrypted
/// plaintext followed by a 16-byte tag.
#[verifier::external_body]
fn aes256gcm_encrypt(key: &[u8], nonce: &[u8], plaintext: &[u8]) -> (r: Result<Vec<u8>, aes_gcm::Error>)
    requires
        key@.len() == 32,
        nonce@.len() == 12,
    ensures
        r is Ok == aes256gcm_seal(key@, nonce@, plaintext@) is Some,
        r matches Ok(c) ==> aes256gcm_seal(key@, nonce@, plaintext@) == Some(c@),
        r is Ok <==> plaintext@.len() <= aes_gcm_max_plaintext(),
        r matches Ok(c) ==> c@.len() == plaintext@.len() + 16,
{
    let cipher = aes_gcm::Aes256Gcm::new(aes_gcm::Key::<aes_gcm::Aes256Gcm>::from_slice(key));
    cipher.encrypt(aes_gcm::Nonce::from_slice(nonce), plaintext)
}

/// Builds the cipher for `key` with `KeyInit::new` and calls `Aead::decrypt`.
/// The result is named `aes256gcm_open`; as the AEAD contract states, a
/// ciphertext that the same key and nonce produced from a plaintext decrypts
/// to that plaintext.
#[verifier::external_body]
fn aes256gcm_decrypt(key: &[u8], nonce: &[u8], ciphertext: &[u8]) -> (r: Result<Vec<u8>, aes_gcm::Error>)
    requires
        key@.len() == 32,
        nonce@.len() == 12,
    ensures
        r is Ok == aes256gcm_open(key@, nonce@, ciphertext@) is Some,
        r matches Ok(p) ==> aes256gcm_open(key@, nonce@, ciphertext@) == Some(p@),
        forall|p: Seq<u8>| #![trigger aes256gcm_seal(key@, nonce@, p)]
            (r matches Ok(q) && q@ == p) || aes256gcm_seal(key@, nonce@, p) != Some(ciphertext@),
{
    let cipher = aes_gcm::Aes256Gcm::new(aes_gcm::Key::<aes_gcm::Aes256Gcm>::from_slice(key));
    cipher.decrypt(aes_gcm::Nonce::from_slice(nonce), ciphertext)
}

/// Twelve random bytes from `rand::random::<[u8; 12]>()`. Only the length is promised.
#[verifier::external_body]
fn random_nonce() -> (n: Vec<u8>)
    ensures
        n@.len() == 12,
{
    rand::random::<[u8; 12]>().to_vec()
}

/// The stored form of an encryption: the nonce, then the sealed bytes.
pub open spec fn spec_encrypt(key: Seq<u8>, nonce: Seq<u8>, plaintext: Seq<u8>) -> Option<Seq<u8>> {
    match aes256gcm_seal(key, nonce, plaintext) {
        Some(c) => Some(nonce + c),
        None => None,
    }
}

/// What decrypting stored bytes gives: too-short input fails, otherwise the
/// first twelve bytes are the nonce.
pub open spec fn spec_decrypt(key: Seq<u8>, stored: Seq<u8>) -> Option<Seq<u8>> {
    if stored.len() < 12 {
        None
    } else {
        aes256gcm_open(key, stored.subrange(0, 12), stored.subrange(12, stored.len() as int))
    }
}

/// AES-256-GCM with a fresh random nonce per message.
pub struct AesGcmCrypto {
    key: Vec<u8>,
}

impl AesGcmCrypto {
    /// The key in use.
    pub closed spec fn key(&self) -> Seq<u8> {
        self.key@
    }

    /// A cipher for a 32-byte key; any other length is refused.
    pub fn new(key: Vec<u8>) -> (r: Result<AesGcmCrypto, AppError>)
        ensures
            match r {
                Ok(c) => key@.len() == 32 && c.key() == key@,
                Err(e) => key@.len() != 32 && e.code == ErrorCode::CryptoEncryptFailed,
            },
    {
        if key.len() != 32 {
            let mut msg = String::from_str("AES-256 requires 32-byte key, got ");
            msg.append(key.len().to_string().as_str());
            return Err(AppError::new(ErrorCode::CryptoEncryptFailed, msg));
        }
        Ok(AesGcmCrypto { key })
    }

    /// Encrypts with the given 12-byte nonce; the output is the nonce followed
    /// by the sealed bytes.
    pub fn encrypt_with_nonce(&self, nonce: &[u8], plaintext: &[u8]) -> (r: Result<Vec<u8>, AppError>)
        requires
            self.key().len() == 32,
            nonce@.len() == 12,
        ensures
            match r {
                Ok(out) => spec_encrypt(self.key(), nonce@, plaintext@) == Some(out@),
                Err(e) => spec_encrypt(self.key(), nonce@, plaintext@) is None
                    && e.code == ErrorCode::CryptoEncryptFailed,
            },
            r is Ok <==> plaintext@.len() <= aes_gcm_max_plaintext(),
            r matches Ok(out) ==> out@.len() == plaintext@.len() + 28,
    {
        match aes256gcm_encrypt(self.key.as_slice(), nonce, plaintext) {
            Ok(c) => {
                let mut out = slice_to_vec(nonce);
                let mut i: usize = 0;
                while i < c.len()
                    invariant
                        i <= c@.len(),
                        out@ == nonce@ + c@.subrange(0, i as int),
                    decreases c@.len() - i,
                {
                    out.push(c[i]);
                    assert(c@.subrange(0, i as int + 1) == c@.subrange(0, i as int).push(c@[i as int]));
                    i = i + 1;
                }
                assert(c@.subrange(0, c@.len() as int) == c@);
                Ok(out)
            },
            Err(_) => Err(AppError::from_static(ErrorCode::CryptoEncryptFailed, "aead::Error")),
        }
    }

    /// Encrypts under a fresh random nonce.
    pub fn encrypt(&self, plaintext: &[u8]) -> (r: Result<Vec<u8>, AppError>)
        requires
            self.key().len() == 32,
        ensures
            match r {
                Ok(out) => exists|nonce: Seq<u8>| nonce.len() == 12
                    && #[trigger] spec_encrypt(self.key(), nonce, plaintext@) == Some(out@),
                Err(e) => e.code == ErrorCode::CryptoEncryptFailed,
            },
            r is Ok <==> plaintext@.len() <= aes_gcm_max_plaintext(),
            r matches Ok(out) ==> out@.len() == plaintext@.len() + 28,
    {
        let nonce = random_nonce();
        self.encrypt_with_nonce(nonce.as_slice(), plaintext)
    }

    /// Decrypts stored bytes (nonce first). Bytes that this key produced from
    /// a plaintext decrypt to that plaintext.
    pub fn decrypt(&self, stored: &[u8]) -> (r: Result<Vec<u8>, AppError>)
        requires
            self.key().len() == 32,
        ensures
            match r {
                Ok(p) => spec_decrypt(self.key(), stored@) == Some(p@),
                Err(e) => spec_decrypt(self.key(), stored@) is None && e.code == ErrorCode::CryptoDecryptFailed,
            },
            forall|nonce: Seq<u8>, p: Seq<u8>|
                nonce.len() == 12 && #[trigger] spec_encrypt(self.key(), nonce, p) == Some(stored@)
                ==> (r matches Ok(q) && q@ == p),
    {
        if stored.len() < 12 {
            proof {
                assert forall|nonce: Seq<u8>, p: Seq<u8>|
                    nonce.len() == 12 && #[trigger] spec_encrypt(self.key(), nonce, p) == Some(stored@)
                    implies false by {
                    let c = aes256gcm_seal(self.key(), nonce, p)->0;
                    assert((nonce + c).len() >= 12);
                }
            }
            return Err(AppError::from_static(ErrorCode::CryptoDecryptFailed, "ciphertext too short (missing nonce)"));
        }
        let nonce = slice_subrange(stored, 0, 12);
        let body = slice_subrange(stored, 12, stored.len());
        let r = aes256gcm_decrypt(self.key.as_slice(), nonce, body);
        proof {
            assert forall|n: Seq<u8>, p: Seq<u8>|
                n.len() == 12 && #[trigger] spec_encrypt(self.key(), n, p) == Some(stored@)
                implies (r matches Ok(q) && q@ == p) by {
                let c = aes256gcm_seal(self.key(), n, p)->0;
                assert(stored@ == n + c);
                assert(stored@.subrange(0, 12) =~= n);
                assert(stored@.subrange(12, stored@.len() as int) =~= c);
            }
        }
        match r {
            Ok(p) => Ok(p),
            Err(_) => Err(AppError::from_static(ErrorCode::CryptoDecryptFailed, "aead::Error")),
        }
    }
}

/// Settings of the file key provider.
#[derive(Debug, Clone)]
pub struct FileKeyConfig {
    pub enabled: bool,
    pub path: String,
}

/// Key provider meant to read keys from an encrypted key file; lookups are
/// not implemented and always fail.
pub struct FileKeyProvider {
    config: FileKeyConfig,
}

impl FileKeyProvider {
    pub fn new(config: &FileKeyConfig) -> (p: FileKeyProvider)
        ensures
            p.enabled() == config.enabled,
            p.path() == config.path@,
    {
        FileKeyProvider { config: FileKeyConfig { enabled: config.enabled, path: config.path.clone() } }
    }

    pub closed spec fn enabled(&self) -> bool {
        self.config.enabled
    }

    pub closed spec fn path(&self) -> Seq<char> {
        self.config.path@
    }

    /// Always fails with `CryptoKeyNotFound`; the message says why: the
    /// provider is disabled, has no path, or cannot look keys up.
    pub fn get_key(&self, key_id: &str) -> (r: Result<Vec<u8>, AppError>)
        ensures
            r matches Err(e) && e.code == ErrorCode::CryptoKeyNotFound,
            !self.enabled() ==> (r matches Err(e) && e.message@ == "file key provider not enabled"@),
            self.enabled() && self.path().len() == 0 ==> (r matches Err(e) && e.message@
                == "key file path not configured"@),
    {
        if !self.config.enabled {
            return Err(AppError::from_static(ErrorCode::CryptoKeyNotFound, "file key provider not enabled"));
        }
        if self.config.path.as_str().is_empty() {
            return Err(AppError::from_static(ErrorCode::CryptoKeyNotFound, "key file path not configured"));
        }
        let mut msg = String::from_str("file key provider stub: key '");
        msg.append(key_id);
        msg.append("' not implemented");
        Err(AppError::new(ErrorCode::CryptoKeyNotFound, msg))
    }
}

/// Key provider that takes keys from environment variables.
pub struct EnvKeyProvider;

impl EnvKeyProvider {
    /// The key for `key_id` given the value of the variable of that name, if
    /// it is set: its UTF-8 bytes, or `CryptoKeyNotFound`.
    pub fn key_from_var(&self, key_id: &str, value: Option<String>) -> (r: Result<Vec<u8>, AppError>)
        ensures
            match value {
                Some(v) => r matches Ok(k) && k@ == vstd::utf8::encode_utf8(v@),
                None => r matches Err(e) && e.code == ErrorCode::CryptoKeyNotFound,
            },
    {
        match value {
            Some(v) => Ok(slice_to_vec(v.as_str().as_bytes())),
            None => {
                let mut msg = String::from_str("env var '");
                msg.append(key_id);
                msg.append("' not set");
                Err(AppError::new(ErrorCode::CryptoKeyNotFound, msg))
            },
        }
    }
}

} // verus!
