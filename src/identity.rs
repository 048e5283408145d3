//! A party's long-term keys for X3DH: an X25519 identity key pair, an Ed25519
//! signing key pair and the current signed pre-key with its version.
use vstd::prelude::*;
use crate::crypto::{is_identity_pair, is_x25519_pair, signing_pair_spec, decode_spec, verify_signed_spec};
use crate::error::CryptoError;
use crate::types::{IdentityKeyPair, KeyPair, SignedPublicKey};

verus! {

#[derive(Debug, Clone)]
pub struct IdentityKeyStore {
    /// X25519 identity key pair.
    pub identity_keypair: KeyPair,
    /// Ed25519 key pair that signs pre-keys.
    pub identity_signature_key: IdentityKeyPair,
    /// X25519 signed pre-key.
    pub signed_prekey: KeyPair,
    /// Version of the signed pre-key.
    pub key_version: u32,
}

impl IdentityKeyStore {
    /// Fresh keys, at version 1.
    pub fn generate() -> (r: Result<Self, CryptoError>)
        ensures
            r matches Ok(s) && is_x25519_pair(s.identity_keypair) && is_identity_pair(s.identity_signature_key)
                && is_x25519_pair(s.signed_prekey) && s.key_version == 1 && s.identity_keypair.public_key@.len() == 44
                && s.identity_keypair.private_key@.len() == 44 && s.identity_signature_key.public_key@.len() == 44
                && s.identity_signature_key.private_key@.len() == 88 && s.signed_prekey.public_key@.len() == 44
                && s.signed_prekey.private_key@.len() == 44,
    {
        let identity_keypair = crate::crypto::generate_key_pair(false);
        let identity_signature_key = crate::crypto::generate_identity_key_pair()?;
        let signed_prekey = crate::crypto::generate_key_pair(false);
        Ok(IdentityKeyStore { identity_keypair, identity_signature_key, signed_prekey, key_version: 1 })
    }

    pub fn from_keys(
        identity_keypair: KeyPair,
        identity_signature_key: IdentityKeyPair,
        signed_prekey: KeyPair,
        key_version: u32,
    ) -> (r: Self)
        ensures
            r == (IdentityKeyStore { identity_keypair, identity_signature_key, signed_prekey, key_version }),
    {
        IdentityKeyStore { identity_keypair, identity_signature_key, signed_prekey, key_version }
    }

    pub fn get_public_identity(&self) -> (r: &str)
        ensures
            r@ == self.identity_keypair.public_key@,
    {
        self.identity_keypair.public_key.as_str()
    }

    pub fn get_public_signature_key(&self) -> (r: &str)
        ensures
            r@ == self.identity_signature_key.public_key@,
    {
        self.identity_signature_key.public_key.as_str()
    }

    /// Signs a pre-key (base64) at `key_version` with the Ed25519 key.
    pub fn sign_prekey(&self, prekey: &str, key_version: u32) -> (r: Result<SignedPublicKey, CryptoError>)
        ensures
            match signing_pair_spec(self.identity_signature_key.private_key@) {
                Err(e) => r == Err::<SignedPublicKey, CryptoError>(e),
                Ok(kp) => match decode_spec(prekey@) {
                    Err(e) => r == Err::<SignedPublicKey, CryptoError>(e),
                    Ok(_) => r matches Ok(s) && s.public_key@ == prekey@ && s.key_version == key_version
                        && s.signature@.len() == 88 && forall|
                        id: Seq<char>,
                    |
                        #![trigger verify_signed_spec(s, id)]
                        crate::primitives::b64_decode_of(id) == Some(kp.subrange(32, 64)) ==> verify_signed_spec(s, id)
                            == Ok::<bool, CryptoError>(true),
                },
            },
    {
        crate::crypto::sign_public_key(prekey, &self.identity_signature_key.private_key, key_version)
    }

    /// Signs the current signed pre-key at the current version.
    pub fn sign_current_prekey(&self) -> (r: Result<SignedPublicKey, CryptoError>)
        ensures
            is_identity_pair(self.identity_signature_key) && is_x25519_pair(self.signed_prekey) ==> (r matches Ok(s)
                && s.public_key@ == self.signed_prekey.public_key@ && s.key_version == self.key_version
                && s.signature@.len() == 88
                && verify_signed_spec(s, self.identity_signature_key.public_key@) == Ok::<bool, CryptoError>(true)),
    {
        self.sign_prekey(&self.signed_prekey.public_key, self.key_version)
    }

    /// Replaces the signed pre-key with a fresh one and moves to the next version.
    pub fn rotate_signed_prekey(&mut self) -> (r: Result<KeyPair, CryptoError>)
        requires
            old(self).key_version < u32::MAX,
        ensures
            final(self).key_version == old(self).key_version + 1,
            is_x25519_pair(final(self).signed_prekey),
            r == Ok::<KeyPair, CryptoError>(final(self).signed_prekey),
            final(self).identity_keypair == old(self).identity_keypair,
            final(self).identity_signature_key == old(self).identity_signature_key,
    {
        self.signed_prekey = crate::crypto::generate_key_pair(false);
        self.key_version = self.key_version + 1;
        Ok(self.signed_prekey.duplicate())
    }
}

} // verus!
