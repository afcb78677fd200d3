//! AES-256-GCM encryption of stored credentials, and the secrets of
//! private image registries.
use aes_gcm::aead::{Aead, KeyInit};
use base64::Engine;
use sha2::Digest;
use vstd::prelude::*;
use vstd::utf8::{decode_utf8, encode_utf8, valid_utf8};

use crate::dup::Dup;
use crate::models::ContainerService;
use crate::text::{concat2, owned, strip_prefix_owned, trim, trim_owned};

verus! {

/// Largest plaintext, in bytes, that AES-GCM encrypts (2^36).
pub open spec fn max_plaintext_len() -> nat {
    0x1000000000
}

/// Size of the nonce stored in front of each ciphertext.
pub open spec fn nonce_len() -> nat {
    12
}

/// The SHA-256 digest of a byte string.
pub uninterp spec fn sha256_of(data: Seq<u8>) -> Seq<u8>;

/// `sha2::Sha256::digest`: the 32-byte digest, a function of the input.
#[verifier::external_body]
fn sha256(data: &[u8]) -> (r: [u8; 32])
    ensures
        r@ == sha256_of(data@),
{
    sha2::Sha256::digest(data).into()
}

/// Twelve random bytes from `rand::rng()` (the thread-local generator).
/// Nothing is promised of their value.
#[verifier::external_body]
fn random_nonce() -> (r: [u8; 12]) {
    let mut nonce = [0u8; 12];
    rand::Rng::fill(&mut rand::rng(), &mut nonce);
    nonce
}

/// The AES-256-GCM ciphertext (with its 16-byte tag appended) of a plaintext
/// under a key and nonce, with no associated data.
pub uninterp spec fn aes_gcm_sealed(key: Seq<u8>, nonce: Seq<u8>, plaintext: Seq<u8>) -> Seq<u8>;

/// The plaintext that AES-256-GCM recovers from a ciphertext under a key and
/// nonce, `None` when the tag does not verify.
pub uninterp spec fn aes_gcm_opened(key: Seq<u8>, nonce: Seq<u8>, ciphertext: Seq<u8>) -> Option<
    Seq<u8>,
>;

/// `aes_gcm::Aes256Gcm::encrypt` with a 32-byte key and a 12-byte nonce.
/// As its source shows, it fails only for a plaintext longer than 2^36
/// bytes, and appends a 16-byte tag. The error text is the crate's.
#[verifier::external_body]
fn gcm_seal(key: &[u8], nonce: &[u8], plaintext: &[u8]) -> (r: Result<Vec<u8>, String>)
    requires
        key@.len() == 32,
        nonce@.len() == 12,
    ensures
        r is Ok <==> plaintext@.len() <= max_plaintext_len(),
        r matches Ok(c) ==> c@ == aes_gcm_sealed(key@, nonce@, plaintext@) && c@.len()
            == plaintext@.len() + 16,
{
    match aes_gcm::Aes256Gcm::new_from_slice(key) {
        Ok(cipher) => match cipher.encrypt(aes_gcm::Nonce::from_slice(nonce), plaintext) {
            Ok(c) => Ok(c),
            Err(e) => Err(e.to_string()),
        },
        Err(e) => Err(e.to_string()),
    }
}

/// `aes_gcm::Aes256Gcm::decrypt` with a 32-byte key and a 12-byte nonce.
/// Besides naming the result, the contract states the defining property of
/// authenticated encryption: what was sealed under a key and nonce opens
/// to the same plaintext. The error text is the crate's.
#[verifier::external_body]
fn gcm_open(key: &[u8], nonce: &[u8], ciphertext: &[u8]) -> (r: Result<Vec<u8>, String>)
    requires
        key@.len() == 32,
        nonce@.len() == 12,
    ensures
        match r {
            Ok(p) => aes_gcm_opened(key@, nonce@, ciphertext@) == Some(p@),
            Err(_) => aes_gcm_opened(key@, nonce@, ciphertext@) is None,
        },
        forall|p: Seq<u8>|
            p.len() <= max_plaintext_len() && ciphertext@ == aes_gcm_sealed(key@, nonce@, p) ==> r
                is Ok && r->Ok_0@ == p,
{
    match aes_gcm::Aes256Gcm::new_from_slice(key) {
        Ok(cipher) => match cipher.decrypt(aes_gcm::Nonce::from_slice(nonce), ciphertext) {
            Ok(p) => Ok(p),
            Err(e) => Err(e.to_string()),
        },
        Err(e) => Err(e.to_string()),
    }
}

/// Standard (padded) base64 text of a byte string.
pub uninterp spec fn base64_text(data: Seq<u8>) -> Seq<char>;

/// The bytes that a standard base64 text decodes to, `None` when it is not
/// canonical standard base64.
pub uninterp spec fn base64_data(text: Seq<char>) -> Option<Seq<u8>>;

/// `base64::engine::general_purpose::STANDARD.encode`.
#[verifier::external_body]
fn base64_encode(data: &[u8]) -> (r: String)
    ensures
        r@ == base64_text(data@),
{
    base64::engine::general_purpose::STANDARD.encode(data)
}

/// `base64::engine::general_purpose::STANDARD.decode`. Besides naming the
/// result, the contract states the documented round trip: the encoding of
/// some bytes decodes to those bytes.
#[verifier::external_body]
fn base64_decode(text: &str) -> (r: Option<Vec<u8>>)
    ensures
        match r {
            Some(b) => base64_data(text@) == Some(b@),
            None => base64_data(text@) is None,
        },
        forall|d: Seq<u8>| text@ == base64_text(d) ==> r is Some && r->0@ == d,
{
    match base64::engine::general_purpose::STANDARD.decode(text) {
        Ok(b) => Some(b),
        Err(_) => None,
    }
}

/// `String::from_utf8`: the text the bytes encode when they are valid
/// UTF-8; the error text is std's.
#[verifier::external_body]
fn utf8_text(bytes: Vec<u8>) -> (r: Result<String, String>)
    ensures
        match r {
            Ok(s) => valid_utf8(bytes@) && s@ == decode_utf8(bytes@),
            Err(_) => !valid_utf8(bytes@),
        },
{
    match String::from_utf8(bytes) {
        Ok(s) => Ok(s),
        Err(e) => Err(e.to_string()),
    }
}

/// Why an encryption or decryption failed.
#[derive(Debug, Clone, PartialEq, Eq)]
pub enum EncryptionError {
    Encryption(String),
    Decryption(String),
    InvalidKeyLength,
    InvalidFormat,
}

/// The kind of an `EncryptionError`, without its message.
#[derive(PartialEq, Eq, Structural)]
pub enum CipherFailure {
    Encryption,
    Decryption,
    InvalidKeyLength,
    InvalidFormat,
}

impl EncryptionError {
    pub open spec fn kind(&self) -> CipherFailure {
        match self {
            EncryptionError::Encryption(_) => CipherFailure::Encryption,
            EncryptionError::Decryption(_) => CipherFailure::Decryption,
            EncryptionError::InvalidKeyLength => CipherFailure::InvalidKeyLength,
            EncryptionError::InvalidFormat => CipherFailure::InvalidFormat,
        }
    }

    /// Human-readable description of the error.
    pub fn message(&self) -> (r: String)
        ensures
            r@ == match self {
                EncryptionError::Encryption(m) => "encryption failed: "@ + m@,
                EncryptionError::Decryption(m) => "decryption failed: "@ + m@,
                EncryptionError::InvalidKeyLength => "invalid key length"@,
                EncryptionError::InvalidFormat => "invalid data format"@,
            },
    {
        match self {
            EncryptionError::Encryption(m) => concat2("encryption failed: ", m.as_str()),
            EncryptionError::Decryption(m) => concat2("decryption failed: ", m.as_str()),
            EncryptionError::InvalidKeyLength => owned("invalid key length"),
            EncryptionError::InvalidFormat => owned("invalid data format"),
        }
    }
}

/// The stored form of a plaintext encrypted under `key` with `nonce`: the
/// nonce followed by the ciphertext, in standard base64.
pub open spec fn encryption_of(plaintext: Seq<char>, key: Seq<u8>, nonce: Seq<u8>) -> Seq<char> {
    base64_text(sealed_payload(plaintext, key, nonce))
}

/// The bytes that the stored form encodes: the nonce, then the ciphertext
/// with its tag.
pub open spec fn sealed_payload(plaintext: Seq<char>, key: Seq<u8>, nonce: Seq<u8>) -> Seq<u8> {
    nonce + aes_gcm_sealed(key, nonce, encode_utf8(plaintext))
}

/// What decrypting a stored text under `key` yields.
pub open spec fn decryption_of(text: Seq<char>, key: Seq<u8>) -> Result<Seq<char>, CipherFailure> {
    if key.len() != 32 {
        Err(CipherFailure::InvalidKeyLength)
    } else {
        match base64_data(text) {
            None => Err(CipherFailure::InvalidFormat),
            Some(b) => if b.len() < nonce_len() {
                Err(CipherFailure::InvalidFormat)
            } else {
                match aes_gcm_opened(key, b.take(12), b.skip(12)) {
                    None => Err(CipherFailure::Decryption),
                    Some(p) => if valid_utf8(p) {
                        Ok(decode_utf8(p))
                    } else {
                        Err(CipherFailure::Decryption)
                    },
                }
            },
        }
    }
}

fn copy_bytes(v: &[u8], from: usize, to: usize) -> (r: Vec<u8>)
    requires
        from <= to <= v@.len(),
    ensures
        r@ == v@.subrange(from as int, to as int),
{
    let mut r: Vec<u8> = Vec::new();
    let mut i = from;
    while i < to
        invariant
            from <= i <= to <= v@.len(),
            r@ == v@.subrange(from as int, i as int),
        decreases to - i,
    {
        r.push(v[i]);
        proof {
            assert(v@.subrange(from as int, i + 1) =~= v@.subrange(from as int, i as int).push(
                v@[i as int],
            ));
        }
        i = i + 1;
    }
    r
}

/// A 256-bit key derived from a secret: the SHA-256 digest of its UTF-8
/// bytes.
pub fn derive_key(secret: &str) -> (r: [u8; 32])
    ensures
        r@ == sha256_of(encode_utf8(secret@)),
{
    sha256(secret.as_bytes())
}

/// Encrypts `plaintext` under `key` with the given nonce; the result is
/// the nonce and the ciphertext, in base64.
pub fn encrypt_with_nonce(plaintext: &str, key: &[u8], nonce: &[u8]) -> (r: Result<
    String,
    EncryptionError,
>)
    requires
        nonce@.len() == 12,
    ensures
        key@.len() != 32 ==> r == Err::<String, EncryptionError>(EncryptionError::InvalidKeyLength),
        key@.len() == 32 && encode_utf8(plaintext@).len() <= max_plaintext_len() ==> (r matches Ok(
            t,
        ) && t@ == encryption_of(plaintext@, key@, nonce@) && sealed_payload(plaintext@, key@, nonce@).len()
            == 12 + encode_utf8(plaintext@).len() + 16),
        key@.len() == 32 && encode_utf8(plaintext@).len() > max_plaintext_len() ==> (r matches Err(
            e,
        ) && e.kind() == CipherFailure::Encryption),
{
    if key.len() != 32 {
        return Err(EncryptionError::InvalidKeyLength);
    }
    let bytes = plaintext.as_bytes();
    let sealed = match gcm_seal(key, nonce, bytes) {
        Ok(c) => c,
        Err(m) => return Err(EncryptionError::Encryption(m)),
    };
    let mut combined = copy_bytes(nonce, 0, nonce.len());
    let mut rest = sealed;
    let ghost c = rest@;
    combined.append(&mut rest);
    proof {
        assert(nonce@.subrange(0, 12) =~= nonce@);
        assert(combined@ =~= nonce@ + c);
    }
    Ok(base64_encode(combined.as_slice()))
}

/// Encrypts `plaintext` under `key` with a fresh random nonce.
pub fn encrypt(plaintext: &str, key: &[u8]) -> (r: Result<String, EncryptionError>)
    ensures
        key@.len() != 32 ==> r == Err::<String, EncryptionError>(EncryptionError::InvalidKeyLength),
        key@.len() == 32 && encode_utf8(plaintext@).len() <= max_plaintext_len() ==> (r matches Ok(
            t,
        ) && exists|nonce: Seq<u8>|
            nonce.len() == 12 && t@ == #[trigger] encryption_of(plaintext@, key@, nonce)
                && sealed_payload(plaintext@, key@, nonce).len() == 12 + encode_utf8(plaintext@).len()
                + 16),
        key@.len() == 32 && encode_utf8(plaintext@).len() > max_plaintext_len() ==> (r matches Err(
            e,
        ) && e.kind() == CipherFailure::Encryption),
{
    let nonce = random_nonce();
    encrypt_with_nonce(plaintext, key, &nonce)
}

/// Decrypts a stored text under `key`. Whatever `encrypt` produced under the
/// same key decrypts to its plaintext.
pub fn decrypt(encrypted: &str, key: &[u8]) -> (r: Result<String, EncryptionError>)
    ensures
        match decryption_of(encrypted@, key@) {
            Ok(p) => r matches Ok(s) && s@ == p,
            Err(k) => r matches Err(e) && e.kind() == k,
        },
        forall|p: Seq<char>, nonce: Seq<u8>|
            key@.len() == 32 && nonce.len() == 12 && encode_utf8(p).len() <= max_plaintext_len()
                && encrypted@ == #[trigger] encryption_of(p, key@, nonce) ==> (r matches Ok(s) && s@
                == p),
{
    if key.len() != 32 {
        return Err(EncryptionError::InvalidKeyLength);
    }
    let decoded = base64_decode(encrypted);
    let combined = match decoded {
        Some(b) => b,
        None => {
            proof {
                assert forall|p: Seq<char>, n: Seq<u8>|
                    key@.len() == 32 && n.len() == 12 && encode_utf8(p).len() <= max_plaintext_len()
                        && encrypted@ == #[trigger] encryption_of(p, key@, n) implies false by {
                    let d = n + aes_gcm_sealed(key@, n, encode_utf8(p));
                    assert(encrypted@ == base64_text(d));
                }
            }
            return Err(EncryptionError::InvalidFormat);
        },
    };
    proof {
        assert forall|p: Seq<char>, n: Seq<u8>|
            key@.len() == 32 && n.len() == 12 && encode_utf8(p).len() <= max_plaintext_len()
                && encrypted@ == #[trigger] encryption_of(p, key@, n) implies combined@ == n
            + aes_gcm_sealed(key@, n, encode_utf8(p)) by {
            let d = n + aes_gcm_sealed(key@, n, encode_utf8(p));
            assert(encrypted@ == base64_text(d));
        }
    }
    if combined.len() < 12 {
        return Err(EncryptionError::InvalidFormat);
    }
    let nonce = copy_bytes(combined.as_slice(), 0, 12);
    let sealed = copy_bytes(combined.as_slice(), 12, combined.len());
    proof {
        assert(nonce@ =~= combined@.take(12));
        assert(sealed@ =~= combined@.skip(12));
    }
    let opened = match gcm_open(key, nonce.as_slice(), sealed.as_slice()) {
        Ok(p) => p,
        Err(m) => {
            proof {
                assert forall|p: Seq<char>, n: Seq<u8>|
                    key@.len() == 32 && n.len() == 12 && encode_utf8(p).len() <= max_plaintext_len()
                        && encrypted@ == #[trigger] encryption_of(p, key@, n) implies false by {
                    let sealed_p = aes_gcm_sealed(key@, n, encode_utf8(p));
                    assert(combined@ == n + sealed_p);
                    assert(nonce@ =~= n);
                    assert(sealed@ =~= sealed_p);
                }
            }
            return Err(EncryptionError::Decryption(m));
        },
    };
    let ghost pb = opened@;
    match utf8_text(opened) {
        Ok(s) => {
            proof {
                assert forall|p: Seq<char>, n: Seq<u8>|
                    key@.len() == 32 && n.len() == 12 && encode_utf8(p).len() <= max_plaintext_len()
                        && encrypted@ == #[trigger] encryption_of(p, key@, n) implies s@ == p by {
                    let sealed_p = aes_gcm_sealed(key@, n, encode_utf8(p));
                    assert(combined@ == n + sealed_p);
                    assert(nonce@ =~= n);
                    assert(sealed@ =~= sealed_p);
                    assert(pb == encode_utf8(p));
                    vstd::utf8::encode_utf8_decode_utf8(p);
                }
            }
            Ok(s)
        },
        Err(m) => {
            proof {
                assert forall|p: Seq<char>, n: Seq<u8>|
                    key@.len() == 32 && n.len() == 12 && encode_utf8(p).len() <= max_plaintext_len()
                        && encrypted@ == #[trigger] encryption_of(p, key@, n) implies false by {
                    let sealed_p = aes_gcm_sealed(key@, n, encode_utf8(p));
                    assert(combined@ == n + sealed_p);
                    assert(nonce@ =~= n);
                    assert(sealed@ =~= sealed_p);
                    assert(pb == encode_utf8(p));
                    vstd::utf8::encode_utf8_valid_utf8(p);
                }
            }
            Err(EncryptionError::Decryption(m))
        },
    }
}

/// Credentials for pulling from a private image registry.
#[derive(Debug, Clone, PartialEq, Eq)]
pub struct RegistryCredentials {
    pub server: Option<String>,
    pub username: String,
    pub password: String,
}

/// Why a stored secret could not be read.
#[derive(Debug, Clone, PartialEq, Eq)]
pub enum SecretError {
    /// The secret is encrypted but no encryption key is configured.
    KeyNotConfigured,
    /// The encrypted secret did not decrypt.
    Undecryptable(EncryptionError),
}

impl SecretError {
    /// Human-readable description of the error.
    pub fn message(&self) -> (r: String)
        ensures
            r@ == match self {
                SecretError::KeyNotConfigured => "encryption key is not configured"@,
                SecretError::Undecryptable(e) => "failed to decrypt registry password: "@
                    + e.message_text(),
            },
    {
        match self {
            SecretError::KeyNotConfigured => owned("encryption key is not configured"),
            SecretError::Undecryptable(e) => {
                let m = e.message();
                concat2("failed to decrypt registry password: ", m.as_str())
            },
        }
    }
}

impl EncryptionError {
    /// The text that `message` returns.
    pub open spec fn message_text(&self) -> Seq<char> {
        match self {
            EncryptionError::Encryption(m) => "encryption failed: "@ + m@,
            EncryptionError::Decryption(m) => "decryption failed: "@ + m@,
            EncryptionError::InvalidKeyLength => "invalid key length"@,
            EncryptionError::InvalidFormat => "invalid data format"@,
        }
    }
}

/// What reading a stored secret yields: a value marked "enc:" (after
/// trimming) is decrypted with the key derived from the encryption secret;
/// any other value is the secret itself, trimmed.
pub open spec fn stored_secret(value: Seq<char>, encryption_secret: Option<Seq<char>>) -> Result<
    Seq<char>,
    Option<CipherFailure>,
> {
    let t = trim(value);
    if crate::text::has_prefix(t, "enc:"@) {
        match encryption_secret {
            None => Err(None),
            Some(secret) => match decryption_of(t.skip(4), sha256_of(encode_utf8(secret))) {
                Ok(p) => Ok(p),
                Err(k) => Err(Some(k)),
            },
        }
    } else {
        Ok(t)
    }
}

/// Reads a stored secret, decrypting it when it is marked "enc:".
pub fn decrypt_stored_secret(value: &str, encryption_secret: Option<&str>) -> (r: Result<
    String,
    SecretError,
>)
    ensures
        match stored_secret(
            value@,
            match encryption_secret {
                Some(s) => Some(s@),
                None => None,
            },
        ) {
            Ok(p) => r matches Ok(s) && s@ == p,
            Err(None) => r matches Err(SecretError::KeyNotConfigured),
            Err(Some(k)) => r matches Err(SecretError::Undecryptable(e)) && e.kind() == k,
        },
{
    proof {
        reveal_strlit("enc:");
    }
    let trimmed = trim_owned(value);
    match strip_prefix_owned(trimmed.as_str(), "enc:") {
        Some(payload) => {
            let secret = match encryption_secret {
                Some(s) => s,
                None => return Err(SecretError::KeyNotConfigured),
            };
            let key = derive_key(secret);
            match decrypt(payload.as_str(), &key) {
                Ok(p) => Ok(p),
                Err(e) => Err(SecretError::Undecryptable(e)),
            }
        },
        None => Ok(trimmed),
    }
}

/// The registry credentials of a service, with the password read from its
/// stored form; `None` when the service has no registry settings.
pub fn resolve_service_registry_auth(
    service: &ContainerService,
    encryption_secret: Option<&str>,
) -> (r: Result<Option<RegistryCredentials>, SecretError>)
    ensures
        match service.registry_auth {
            None => r matches Ok(None),
            Some(auth) => match stored_secret(
                auth.password@,
                match encryption_secret {
                    Some(s) => Some(s@),
                    None => None,
                },
            ) {
                Ok(p) => r matches Ok(Some(c)) && c.server.deep_view() == auth.server.deep_view()
                    && c.username@ == auth.username@ && c.password@ == p,
                Err(None) => r matches Err(SecretError::KeyNotConfigured),
                Err(Some(k)) => r matches Err(SecretError::Undecryptable(e)) && e.kind() == k,
            },
        },
{
    match &service.registry_auth {
        None => Ok(None),
        Some(auth) => {
            let password = decrypt_stored_secret(auth.password.as_str(), encryption_secret)?;
            Ok(
                Some(
                    RegistryCredentials {
                        server: auth.server.dup(),
                        username: auth.username.dup(),
                        password,
                    },
                ),
            )
        },
    }
}

} // verus!
