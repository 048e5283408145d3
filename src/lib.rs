//! End-to-end encryption primitives, X3DH key agreement and a Double-Ratchet
//! session, with their behaviour stated as contracts and proved.

pub mod error;
pub mod primitives;
pub mod bytes;
pub mod types;
pub mod chain;
pub mod crypto;
pub mod bundle;
pub mod protocol;
pub mod identity;
pub mod symmetric_ratchet;
pub mod dh_ratchet;
pub mod crypto_provider;
pub mod session;

pub use crypto::{
    decrypt_data, decrypt_file, decrypt_file_raw, decrypt_file_with_message, decrypt_message,
    derive_key_from_password, derive_key_from_string, derive_recovery_key_argon2id,
    derive_recovery_key_argon2id_with_config, encrypt_data, encrypt_file, encrypt_file_raw,
    encrypt_file_with_message, encrypt_message, generate_identity_key_pair, generate_key_pair,
    generate_nonce, generate_recovery_salt, generate_salt, sign_public_key, unwrap_symmetric_key,
    validate_recovery_entropy, verify_signed_public_key, wrap_symmetric_key,
};
pub use error::CryptoError;
pub use types::{
    AeadKey, Argon2Config, DecryptedFileWithMessage, EncryptedFile, EncryptedFileWithMessage,
    EncryptedMessage, IdentityKeyPair, KeyPair, SignedPublicKey,
};
pub use chain::{ChainKey, MessageKey, RootKey, SkippedMessageKey};
pub use dh_ratchet::DhRatchet;
pub use symmetric_ratchet::SymmetricRatchet;
pub use session::{RatchetMessage, RatchetSession, RatchetSessionState};
pub use bundle::PreKeyBundle;
pub use identity::IdentityKeyStore;
pub use protocol::{x3dh_initiate, x3dh_respond, x3dh_respond_with_otk, SharedSecret};
