//! The Diffie-Hellman half of the Double Ratchet: the local ratchet key pair,
//! the peer's ratchet public key and, for a responder's first step, its
//! identity private key.
use vstd::prelude::*;
use crate::chain::{ChainKey, RootKey, kdf_chain_of, kdf_root_of};
use crate::crypto::{dh_text_spec, is_x25519_pair};
use crate::error::CryptoError;
use crate::types::{KeyPair, copy_opt_string};

verus! {

#[derive(Debug, Clone)]
pub struct DhRatchet {
    /// Local ratchet key pair.
    pub local_key: KeyPair,
    /// The peer's ratchet public key (its private half is left empty).
    pub remote_public_key: Option<KeyPair>,
    /// Private key for a responder's first step, cleared once used.
    pub initial_local_sk: Option<String>,
}

/// The result of a ratchet step from `root` with a Diffie-Hellman output `dh`.
pub open spec fn step_result(r: (RootKey, ChainKey), root: RootKey, dh: Seq<u8>) -> bool {
    &&& r.0.key@ == kdf_root_of(root.key@, dh)
    &&& r.1.key@ == kdf_chain_of(root.key@, dh)
    &&& r.1.iteration == 0
}

impl DhRatchet {
    pub fn new(local_key: KeyPair) -> (r: Self)
        ensures
            r.local_key == local_key && r.remote_public_key is None && r.initial_local_sk is None,
    {
        DhRatchet { local_key, remote_public_key: None, initial_local_sk: None }
    }

    pub fn for_respondent(local_key: KeyPair, initial_local_sk: String) -> (r: Self)
        ensures
            r.local_key == local_key && r.remote_public_key is None && r.initial_local_sk == Some(initial_local_sk),
    {
        DhRatchet { local_key, remote_public_key: None, initial_local_sk: Some(initial_local_sk) }
    }

    /// The local ratchet public key, sent with each message.
    pub fn get_local_public_key(&self) -> (r: &str)
        ensures
            r@ == self.local_key.public_key@,
    {
        self.local_key.public_key.as_str()
    }

    pub fn set_remote_public_key(&mut self, remote_pk: KeyPair)
        ensures
            final(self).remote_public_key == Some(remote_pk),
            final(self).local_key == old(self).local_key,
            final(self).initial_local_sk == old(self).initial_local_sk,
    {
        self.remote_public_key = Some(remote_pk);
    }

    /// A sending step: Diffie-Hellman of the local private key and the peer's
    /// public key, the root KDF, and a fresh local key pair.
    pub fn ratchet_initiator(&mut self, root_key: &RootKey) -> (r: Result<(RootKey, ChainKey), CryptoError>)
        ensures
            match old(self).remote_public_key {
                None => r == Err::<(RootKey, ChainKey), CryptoError>(CryptoError::Aead) && *final(self) == *old(self),
                Some(rk) => match dh_text_spec(old(self).local_key.private_key@, rk.public_key@) {
                    Err(e) => r == Err::<(RootKey, ChainKey), CryptoError>(e) && *final(self) == *old(self),
                    Ok(d) => {
                        &&& r matches Ok(out) && step_result(out, *root_key, d)
                        &&& is_x25519_pair(final(self).local_key)
                        &&& final(self).remote_public_key == old(self).remote_public_key
                        &&& final(self).initial_local_sk == old(self).initial_local_sk
                    },
                },
            },
    {
        let remote = match &self.remote_public_key {
            Some(k) => k,
            None => return Err(CryptoError::Aead),
        };
        let dh = crate::crypto::dh_from_b64(&self.local_key.private_key, &remote.public_key)?;
        let out = root_key.kdf(&dh);
        self.local_key = crate::crypto::generate_key_pair(false);
        Ok(out)
    }

    /// A receiving step: as a sending step, but with the reserved initial
    /// private key when there is one, which is then cleared.
    pub fn ratchet_respondent(&mut self, root_key: &RootKey) -> (r: Result<(RootKey, ChainKey), CryptoError>)
        ensures
            match old(self).remote_public_key {
                None => r == Err::<(RootKey, ChainKey), CryptoError>(CryptoError::Aead) && *final(self) == *old(self),
                Some(rk) => {
                    let sk = match old(self).initial_local_sk {
                        Some(s) => s@,
                        None => old(self).local_key.private_key@,
                    };
                    match dh_text_spec(sk, rk.public_key@) {
                        Err(e) => r == Err::<(RootKey, ChainKey), CryptoError>(e) && *final(self) == *old(self),
                        Ok(d) => {
                            &&& r matches Ok(out) && step_result(out, *root_key, d)
                            &&& is_x25519_pair(final(self).local_key)
                            &&& final(self).remote_public_key == old(self).remote_public_key
                            &&& final(self).initial_local_sk is None
                        },
                    }
                },
            },
    {
        let remote = match &self.remote_public_key {
            Some(k) => k,
            None => return Err(CryptoError::Aead),
        };
        let dh = match &self.initial_local_sk {
            Some(sk) => crate::crypto::dh_from_b64(sk, &remote.public_key)?,
            None => crate::crypto::dh_from_b64(&self.local_key.private_key, &remote.public_key)?,
        };
        let out = root_key.kdf(&dh);
        self.initial_local_sk = None;
        self.local_key = crate::crypto::generate_key_pair(false);
        Ok(out)
    }

    /// Whether a message's ephemeral key differs from the peer's known key.
    pub fn needs_update(&self, new_ephemeral_key: &str) -> (r: bool)
        ensures
            r == match self.remote_public_key {
                None => true,
                Some(k) => k.public_key@ != new_ephemeral_key@,
            },
    {
        match &self.remote_public_key {
            None => true,
            Some(k) => {
                let e: String = new_ephemeral_key.to_owned();
                !(k.public_key == e)
            },
        }
    }

    /// A serializable snapshot.
    pub fn to_state(&self) -> (r: DhRatchetState)
        ensures
            r.local_public_key == self.local_key.public_key,
            r.local_private_key == self.local_key.private_key,
            r.remote_public_key == match self.remote_public_key {
                Some(k) => Some(k.public_key),
                None => None,
            },
            r.initial_local_sk == self.initial_local_sk,
    {
        DhRatchetState {
            local_public_key: self.local_key.public_key.clone(),
            local_private_key: self.local_key.private_key.clone(),
            remote_public_key: match &self.remote_public_key {
                Some(k) => Some(k.public_key.clone()),
                None => None,
            },
            initial_local_sk: copy_opt_string(&self.initial_local_sk),
        }
    }

    /// The ratchet of a snapshot; the peer's key comes back with an empty private half.
    pub fn from_state(state: &DhRatchetState) -> (r: Self)
        ensures
            r.local_key.public_key == state.local_public_key,
            r.local_key.private_key == state.local_private_key,
            match state.remote_public_key {
                Some(p) => r.remote_public_key matches Some(k) && k.public_key == p && k.private_key@.len() == 0,
                None => r.remote_public_key is None,
            },
            r.initial_local_sk == state.initial_local_sk,
    {
        DhRatchet {
            local_key: KeyPair {
                public_key: state.local_public_key.clone(),
                private_key: state.local_private_key.clone(),
            },
            remote_public_key: match &state.remote_public_key {
                Some(p) => Some(KeyPair { public_key: p.clone(), private_key: String::new() }),
                None => None,
            },
            initial_local_sk: copy_opt_string(&state.initial_local_sk),
        }
    }
}

/// A serializable snapshot of a [`DhRatchet`].
#[derive(Debug, Clone)]
pub struct DhRatchetState {
    pub local_public_key: String,
    pub local_private_key: String,
    pub remote_public_key: Option<String>,
    pub initial_local_sk: Option<String>,
}

} // verus!
