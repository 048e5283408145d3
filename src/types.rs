//! Plain records that cross the library's boundary.
use vstd::prelude::*;

verus! {

/// A 32-byte symmetric key for ChaCha20-Poly1305. It has no `Debug`, so that
/// its bytes cannot reach a log through formatting.
#[derive(Clone)]
pub struct AeadKey(pub [u8; 32]);

impl AeadKey {
    /// The key held by `bytes`, which must be exactly 32 bytes long.
    pub fn from_bytes(bytes: &[u8]) -> (r: Result<AeadKey, crate::error::CryptoError>)
        ensures
            bytes@.len() == 32 ==> (r matches Ok(k) && k.0@ == bytes@),
            bytes@.len() != 32 ==> r == Err::<AeadKey, _>(
                crate::error::CryptoError::InvalidKeyLen(bytes@.len() as usize),
            ),
    {
        if bytes.len() != 32 {
            return Err(crate::error::CryptoError::InvalidKeyLen(bytes.len()));
        }
        Ok(AeadKey(crate::bytes::array32_at(bytes, 0)))
    }

    /// The raw key bytes.
    pub fn to_bytes(&self) -> (r: [u8; 32])
        ensures
            r == self.0,
    {
        self.0
    }
}

impl Drop for AeadKey {
    /// The key bytes are overwritten with zeros when the key is dropped.
    fn drop(&mut self)
        opens_invariants none
        no_unwind
    {
        crate::primitives::scrub(&mut self.0);
    }
}

/// Argon2id cost parameters.
pub struct Argon2Config {
    /// Memory size in KiB.
    pub memory_kib: u32,
    /// Number of passes.
    pub iterations: u32,
    /// Degree of parallelism (lanes).
    pub parallelism: u32,
}

impl Default for Argon2Config {
    /// 64 MiB of memory, 3 passes, 4 lanes.
    fn default() -> (r: Self)
        ensures
            r.memory_kib == 65536 && r.iterations == 3 && r.parallelism == 4,
    {
        Argon2Config { memory_kib: 65536, iterations: 3, parallelism: 4 }
    }
}

/// An Ed25519 identity key pair, base64 text: the 32-byte public key and the
/// 64-byte `seed ‖ public` private form.
#[derive(Debug, Clone, PartialEq, Eq)]
pub struct IdentityKeyPair {
    pub public_key: String,
    pub private_key: String,
}

/// An X25519 public key signed by an Ed25519 identity key, over the key's bytes
/// followed by `key_version` as four little-endian bytes.
#[derive(Debug, Clone, PartialEq, Eq)]
pub struct SignedPublicKey {
    /// X25519 public key (base64, 32 bytes).
    pub public_key: String,
    /// Ed25519 signature (base64, 64 bytes).
    pub signature: String,
    /// Version of the key, for rotation.
    pub key_version: u32,
    /// When the key was signed (RFC 3339).
    pub signed_at: String,
}

/// A short message under AEAD: base64 ciphertext and base64 nonce.
#[derive(Debug, Clone, PartialEq, Eq)]
pub struct EncryptedMessage {
    pub ciphertext: String,
    pub nonce: String,
}

/// A file under AEAD, with its name and media type in the clear.
#[derive(Debug, Clone, PartialEq, Eq)]
pub struct EncryptedFile {
    pub ciphertext: String,
    pub nonce: String,
    pub filename: String,
    pub mimetype: String,
}

/// A file and a message under one key and one nonce.
#[derive(Debug, Clone, PartialEq, Eq)]
pub struct EncryptedFileWithMessage {
    pub enc_file: String,
    pub ciphertext: String,
    pub nonce: String,
    pub filename: String,
    pub mimetype: String,
}

/// The opened form of an [`EncryptedFileWithMessage`].
#[derive(Debug, Clone, PartialEq, Eq)]
pub struct DecryptedFileWithMessage {
    pub file: Vec<u8>,
    pub message: String,
    pub filename: String,
    pub mimetype: String,
}

/// An X25519 key pair as base64 text of the raw 32-byte keys.
#[derive(Debug, Clone, PartialEq, Eq)]
pub struct KeyPair {
    pub public_key: String,
    pub private_key: String,
}

impl KeyPair {
    /// A copy of this pair.
    pub fn duplicate(&self) -> (r: KeyPair)
        ensures
            r == *self,
    {
        KeyPair { public_key: self.public_key.clone(), private_key: self.private_key.clone() }
    }
}

/// A copy of an optional text.
pub fn copy_opt_string(s: &Option<String>) -> (r: Option<String>)
    ensures
        r == *s,
{
    match s {
        Some(t) => Some(t.clone()),
        None => None,
    }
}

} // verus!
