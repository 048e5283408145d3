//! Pre-key bundles that a responder publishes for X3DH.
use vstd::prelude::*;
use crate::error::CryptoError;

verus! {

/// The public keys with which an initiator opens a session with `user_id`.
#[derive(Debug, Clone, PartialEq, Eq)]
pub struct PreKeyBundle {
    pub user_id: i32,
    /// Identity key (X25519, base64).
    pub identity_key: String,
    /// Signed pre-key (X25519, base64).
    pub signed_prekey: String,
    /// Ed25519 signature of the signed pre-key (base64).
    pub signed_prekey_signature: String,
    /// One-time pre-key (X25519, base64), if one was left.
    pub one_time_prekey: Option<String>,
    /// Identifier of the one-time pre-key, for its deletion.
    pub one_time_prekey_id: Option<u32>,
}

impl PreKeyBundle {
    pub fn new(
        user_id: i32,
        identity_key: String,
        signed_prekey: String,
        signed_prekey_signature: String,
        one_time_prekey: Option<String>,
        one_time_prekey_id: Option<u32>,
    ) -> (r: Self)
        ensures
            r == (PreKeyBundle {
                user_id,
                identity_key,
                signed_prekey,
                signed_prekey_signature,
                one_time_prekey,
                one_time_prekey_id,
            }),
    {
        PreKeyBundle {
            user_id,
            identity_key,
            signed_prekey,
            signed_prekey_signature,
            one_time_prekey,
            one_time_prekey_id,
        }
    }

    /// A bundle with no one-time pre-key.
    pub fn without_one_time_prekey(
        user_id: i32,
        identity_key: String,
        signed_prekey: String,
        signed_prekey_signature: String,
    ) -> (r: Self)
        ensures
            r == (PreKeyBundle {
                user_id,
                identity_key,
                signed_prekey,
                signed_prekey_signature,
                one_time_prekey: None,
                one_time_prekey_id: None,
            }),
    {
        PreKeyBundle {
            user_id,
            identity_key,
            signed_prekey,
            signed_prekey_signature,
            one_time_prekey: None,
            one_time_prekey_id: None,
        }
    }

    pub fn has_one_time_prekey(&self) -> (r: bool)
        ensures
            r == self.one_time_prekey is Some,
    {
        self.one_time_prekey.is_some()
    }

    /// Whether the identity key, signed pre-key and signature are all present.
    pub fn is_valid(&self) -> (r: bool)
        ensures
            r == (self.identity_key@.len() > 0 && self.signed_prekey@.len() > 0
                && self.signed_prekey_signature@.len() > 0),
    {
        !self.identity_key.as_str().is_empty() && !self.signed_prekey.as_str().is_empty()
            && !self.signed_prekey_signature.as_str().is_empty()
    }
}

/// A one-time pre-key for upload.
#[derive(Debug, Clone, PartialEq, Eq)]
pub struct OneTimePreKey {
    pub prekey_id: u32,
    /// Public key (base64).
    pub prekey: String,
}

impl OneTimePreKey {
    pub fn new(prekey_id: u32, prekey: String) -> (r: Self)
        ensures
            r.prekey_id == prekey_id && r.prekey == prekey,
    {
        OneTimePreKey { prekey_id, prekey }
    }

    /// A one-time pre-key whose public key is that of a fresh X25519 key pair.
    pub fn generate(prekey_id: u32) -> (r: Result<Self, CryptoError>)
        ensures
            r matches Ok(k) && k.prekey_id == prekey_id && crate::crypto::import_key_spec(k.prekey@) is Ok
                && k.prekey@.len() == 44,
    {
        let keypair = crate::crypto::generate_key_pair(false);
        Ok(OneTimePreKey { prekey_id, prekey: keypair.public_key })
    }
}

/// A request to upload one-time pre-keys.
#[derive(Debug, Clone, PartialEq, Eq)]
pub struct UploadPreKeysRequest {
    pub prekeys: Vec<OneTimePreKey>,
}

impl UploadPreKeysRequest {
    pub fn new(prekeys: Vec<OneTimePreKey>) -> (r: Self)
        ensures
            r.prekeys == prekeys,
    {
        UploadPreKeysRequest { prekeys }
    }
}

/// A server's answer holding a bundle.
#[derive(Debug, Clone, PartialEq, Eq)]
pub struct PreKeyBundleResponse {
    pub bundle: PreKeyBundle,
    /// Whether the server found the signed pre-key's signature valid.
    pub signed_prekey_signature_valid: bool,
}

/// The value that a missing signature-validity flag stands for.
pub fn default_true() -> (r: bool)
    ensures
        r,
{
    true
}

impl PreKeyBundleResponse {
    pub fn new(bundle: PreKeyBundle) -> (r: Self)
        ensures
            r.bundle == bundle && r.signed_prekey_signature_valid,
    {
        PreKeyBundleResponse { bundle, signed_prekey_signature_valid: default_true() }
    }
}

} // verus!
