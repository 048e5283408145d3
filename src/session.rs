//! The Double-Ratchet session: a root key, the symmetric ratchet and the
//! Diffie-Hellman ratchet, with message encryption and decryption.
//!
//! Every encryption or decryption works on a copy of the state and commits it
//! only when the whole operation succeeds, so a failed call leaves the session
//! exactly as it was.
use vstd::prelude::*;
use crate::chain::{ChainKey, RootKey, chain_key_after, kdf_chain_of, kdf_root_of, message_key_at, message_key_of};
use crate::crypto::{decode_spec, dh_text_spec, is_x25519_pair, open_combined_spec, sealable, import_key_spec, dh_agrees};
use crate::dh_ratchet::DhRatchet;
use crate::error::CryptoError;
use crate::primitives::{b64_decode_of, x25519_dh_of, x25519_public_of};
use crate::protocol::SharedSecret;
use crate::symmetric_ratchet::{SkippedView, SymmetricRatchet, SymmetricRatchetState, chain_restored, chain_saved, chain_text_ok, chain_view, counter_step, is_first_hit, keep_newest, lemma_chain_restore, lemma_chain_restored_unique, lemma_first_hit_exists, skipped_run, skipped_view};
use crate::dh_ratchet::DhRatchetState;
use crate::types::KeyPair;

verus! {

/// An encrypted message with its header.
#[derive(Debug, Clone, PartialEq, Eq)]
pub struct RatchetMessage {
    /// The sender's ratchet public key (base64, 32 bytes).
    pub ephemeral_key: String,
    /// Base64 of `nonce(12) ‖ ChaCha20-Poly1305 output`.
    pub ciphertext: String,
    /// Position of the message in the sender's chain.
    pub counter: u32,
}

pub struct RatchetSession {
    /// This party's X25519 identity key pair.
    pub local_identity: KeyPair,
    /// The peer's identity key (its private half is empty).
    pub remote_identity: Option<KeyPair>,
    pub root_key: RootKey,
    /// Chains, counters and skipped keys.
    pub ratchet: SymmetricRatchet,
    /// Local ratchet key pair, the peer's ratchet key, and the reserved
    /// first-step private key of a responder.
    pub dh: DhRatchet,
    /// 16 random bytes, base64.
    pub session_id: String,
    /// Seconds since the Unix epoch at creation.
    pub created_at: i64,
}

/// Two sessions hold the same state.
pub open spec fn same_session(a: RatchetSession, b: RatchetSession) -> bool {
    &&& a.local_identity == b.local_identity
    &&& a.remote_identity == b.remote_identity
    &&& a.root_key == b.root_key
    &&& a.ratchet.sending_chain == b.ratchet.sending_chain
    &&& a.ratchet.receiving_chain == b.ratchet.receiving_chain
    &&& a.ratchet.sent_message_count == b.ratchet.sent_message_count
    &&& a.ratchet.received_message_count == b.ratchet.received_message_count
    &&& a.ratchet.skipped_keys@ == b.ratchet.skipped_keys@
    &&& a.dh == b.dh
    &&& a.session_id == b.session_id
    &&& a.created_at == b.created_at
}

/// A key pair as its two texts.
pub open spec fn key_view(k: KeyPair) -> (Seq<char>, Seq<char>) {
    (k.public_key@, k.private_key@)
}

/// An optional key pair as its two texts.
pub open spec fn opt_key_view(k: Option<KeyPair>) -> Option<(Seq<char>, Seq<char>)> {
    match k {
        Some(p) => Some(key_view(p)),
        None => None,
    }
}

/// Two sessions hold the same keys, chains, counters, cache and metadata,
/// texts compared by their characters.
pub open spec fn same_observable(a: RatchetSession, b: RatchetSession) -> bool {
    &&& key_view(a.local_identity) == key_view(b.local_identity)
    &&& opt_key_view(a.remote_identity) == opt_key_view(b.remote_identity)
    &&& a.root_key == b.root_key
    &&& a.ratchet.sending_chain == b.ratchet.sending_chain
    &&& a.ratchet.receiving_chain == b.ratchet.receiving_chain
    &&& a.ratchet.sent_message_count == b.ratchet.sent_message_count
    &&& a.ratchet.received_message_count == b.ratchet.received_message_count
    &&& skipped_view(a.ratchet.skipped_keys@) == skipped_view(b.ratchet.skipped_keys@)
    &&& key_view(a.dh.local_key) == key_view(b.dh.local_key)
    &&& opt_key_view(a.dh.remote_public_key) == opt_key_view(b.dh.remote_public_key)
    &&& a.dh.initial_local_sk == b.dh.initial_local_sk
    &&& a.session_id@ == b.session_id@
    &&& a.created_at == b.created_at
}

/// Whether a message under `eph` asks for a Diffie-Hellman step.
pub open spec fn needs_step(dh: DhRatchet, eph: Seq<char>) -> bool {
    match dh.remote_public_key {
        None => true,
        Some(k) => k.public_key@ != eph,
    }
}

/// The private key text that a receiving step uses.
pub open spec fn step_private(dh: DhRatchet) -> Seq<char> {
    match dh.initial_local_sk {
        Some(s) => s@,
        None => dh.local_key.private_key@,
    }
}

/// The root key and receiving chain with which a message under `eph` is read.
pub open spec fn receive_chain_spec(s: RatchetSession, eph: Seq<char>) -> Result<(Seq<u8>, Option<(Seq<u8>, u32)>), CryptoError> {
    if needs_step(s.dh, eph) {
        match dh_text_spec(step_private(s.dh), eph) {
            Err(e) => Err(e),
            Ok(d) => Ok((kdf_root_of(s.root_key.key@, d), Some((kdf_chain_of(s.root_key.key@, d), 0u32)))),
        }
    } else {
        Ok((s.root_key.key@, chain_view(s.ratchet.receiving_chain)))
    }
}

/// The message key for (`eph`, `counter`): a cached one, or the one the chain
/// issues at `counter`.
pub open spec fn key_for_counter_spec(chain: Option<(Seq<u8>, u32)>, v: Seq<SkippedView>, eph: Seq<char>, counter: u32) -> Result<
    Seq<u8>,
    CryptoError,
> {
    if exists|i: int| is_first_hit(v, eph, counter, i) {
        Ok(v[choose|i: int| is_first_hit(v, eph, counter, i)].2)
    } else {
        match chain {
            None => Err(CryptoError::Aead),
            Some((c, it)) => if counter < it {
                Err(CryptoError::OldMessage)
            } else if counter - it > 1000 {
                Err(CryptoError::SkipLimitExceeded)
            } else if counter == u32::MAX {
                Err(CryptoError::CounterOverflow)
            } else {
                Ok(message_key_at(c, (counter - it) as nat))
            },
        }
    }
}

/// What [`RatchetSession::decrypt_message`] returns.
pub open spec fn decrypt_spec(s: RatchetSession, m: RatchetMessage) -> Result<Seq<u8>, CryptoError> {
    match receive_chain_spec(s, m.ephemeral_key@) {
        Err(e) => Err(e),
        Ok((_, chain)) => match key_for_counter_spec(
            chain,
            skipped_view(s.ratchet.skipped_keys@),
            m.ephemeral_key@,
            m.counter,
        ) {
            Err(e) => Err(e),
            Ok(k) => match decode_spec(m.ciphertext@) {
                Err(e) => Err(e),
                Ok(d) => match open_combined_spec(d, k) {
                    None => Err(CryptoError::Aead),
                    Some(p) => if s.ratchet.received_message_count == u32::MAX {
                        Err(CryptoError::CounterOverflow)
                    } else {
                        Ok(p)
                    },
                },
            },
        },
    }
}

/// The sending chain, and the ratchet secret if a fresh one is drawn, with
/// which the next message of `s` is sent; `esk` is the fresh ratchet secret
/// drawn when an initiator sends its first message.
pub open spec fn send_chain_spec(s: RatchetSession, esk: Seq<u8>) -> Result<(Seq<u8>, Seq<u8>, u32), CryptoError> {
    match s.ratchet.sending_chain {
        Some(c) => Ok((s.root_key.key@, c.key@, c.iteration)),
        None => match s.dh.remote_public_key {
            Some(rk) => match dh_text_spec(s.dh.local_key.private_key@, rk.public_key@) {
                Err(e) => Err(e),
                Ok(d) => Ok((kdf_root_of(s.root_key.key@, d), kdf_chain_of(s.root_key.key@, d), 0u32)),
            },
            None => match s.remote_identity {
                None => Err(CryptoError::Aead),
                Some(rid) => match import_key_spec(rid.public_key@) {
                    Err(e) => Err(e),
                    Ok(pk) => {
                        let d = x25519_dh_of(esk, pk);
                        Ok((kdf_root_of(s.root_key.key@, d), kdf_chain_of(s.root_key.key@, d), 0u32))
                    },
                },
            },
        },
    }
}

/// Whether encrypting in `s` takes a further sending step after the message:
/// after every second message, when the peer's ratchet key is known.
pub open spec fn steps_after_send(s: RatchetSession) -> bool {
    (s.ratchet.sent_message_count + 1) % 2 == 1 && s.dh.remote_public_key is Some
}

/// Whether encrypting in `s` draws a fresh local ratchet key pair.
pub open spec fn draws_fresh_key(s: RatchetSession) -> bool {
    s.ratchet.sending_chain is None || steps_after_send(s)
}

/// The further sending step of an encryption that left `new`: from the root
/// key `root1`, Diffie-Hellman of the local private key `mid` (the session's
/// own when it already had a sending chain) and the peer's ratchet key gives
/// the new root key and a new sending chain at position 0.
pub open spec fn send_step(old: RatchetSession, new: RatchetSession, root1: Seq<u8>, mid: Seq<char>) -> bool {
    &&& old.ratchet.sending_chain is Some ==> mid == old.dh.local_key.private_key@
    &&& old.dh.remote_public_key matches Some(rk)
    &&& dh_text_spec(mid, rk.public_key@) matches Ok(d)
    &&& new.root_key.key@ == kdf_root_of(root1, d)
    &&& new.ratchet.sending_chain matches Some(nc)
    &&& nc.iteration == 0
    &&& nc.key@ == kdf_chain_of(root1, d)
}

/// Whether [`RatchetSession::encrypt_message`] succeeds on `s` for a
/// plaintext of `len` bytes: the sending chain can be set up, the counters can
/// advance, AEAD takes the plaintext, and a further sending step after an odd
/// count finds a usable peer ratchet key.
pub open spec fn encrypt_ok(s: RatchetSession, len: nat) -> bool {
    &&& match s.ratchet.sending_chain {
        Some(c) => c.iteration < u32::MAX,
        None => match s.dh.remote_public_key {
            Some(rk) => dh_text_spec(s.dh.local_key.private_key@, rk.public_key@) is Ok,
            None => s.remote_identity matches Some(rid) && import_key_spec(rid.public_key@) is Ok,
        },
    }
    &&& s.ratchet.sent_message_count < u32::MAX
    &&& sealable(len)
    &&& ((s.ratchet.sent_message_count + 1) % 2 == 1 && s.ratchet.sending_chain is Some) ==> match s.dh.remote_public_key {
        Some(rk) => dh_text_spec(s.dh.local_key.private_key@, rk.public_key@) is Ok,
        None => true,
    }
    &&& !draws_fresh_key(s) ==> import_key_spec(s.dh.local_key.public_key@) is Ok
}

/// A session just made by [`RatchetSession::initiate`].
pub open spec fn is_fresh_initiator(s: RatchetSession, shared: Seq<u8>, remote_identity: KeyPair) -> bool {
    &&& s.root_key.key@ == shared
    &&& s.ratchet.wf()
    &&& s.ratchet.sending_chain is None && s.ratchet.receiving_chain is None
    &&& s.ratchet.sent_message_count == 0 && s.ratchet.received_message_count == 0
    &&& s.ratchet.skipped_keys@.len() == 0
    &&& s.dh.remote_public_key is None && s.dh.initial_local_sk is None
    &&& s.remote_identity matches Some(k) && k.public_key == remote_identity.public_key && k.private_key@.len() == 0
}

/// A session just made by [`RatchetSession::respond`].
pub open spec fn is_fresh_responder(s: RatchetSession, shared: Seq<u8>, local_identity: KeyPair, remote_ratchet_key: KeyPair) -> bool {
    &&& s.root_key.key@ == shared
    &&& s.ratchet.wf()
    &&& s.ratchet.sending_chain is None && s.ratchet.receiving_chain is None
    &&& s.ratchet.sent_message_count == 0 && s.ratchet.received_message_count == 0
    &&& s.ratchet.skipped_keys@.len() == 0
    &&& s.dh.remote_public_key matches Some(k) && k.public_key == remote_ratchet_key.public_key && k.private_key@.len() == 0
    &&& s.dh.initial_local_sk == Some(local_identity.private_key)
    &&& s.local_identity == local_identity
}


/// What holds after [`RatchetSession::encrypt_message`] turned `pt` into `m`:
/// the message key is the one the sending chain (set up first if needed,
/// with the fresh ratchet secret `esk` for an initiator's first message)
/// issues at the prior count, and the ciphertext opens with it to `pt`.
pub open spec fn encrypt_post(old: RatchetSession, new: RatchetSession, pt: Seq<u8>, m: RatchetMessage, esk: Seq<u8>) -> bool {
    &&& send_chain_spec(old, esk) matches Ok((root1, ck, it))
    &&& m.counter == old.ratchet.sent_message_count
    &&& decode_spec(m.ciphertext@) matches Ok(d)
    &&& open_combined_spec(d, message_key_of(ck)) == Some(pt)
    &&& d.len() == 12 + pt.len() + 16
    &&& m.ephemeral_key == new.dh.local_key.public_key
    &&& import_key_spec(m.ephemeral_key@) is Ok
    &&& new.dh.remote_public_key == old.dh.remote_public_key
    &&& new.dh.initial_local_sk == old.dh.initial_local_sk
    &&& draws_fresh_key(old) ==> is_x25519_pair(new.dh.local_key)
    &&& !draws_fresh_key(old) ==> new.dh.local_key == old.dh.local_key
    &&& !steps_after_send(old) ==> {
        &&& new.root_key.key@ == root1
        &&& new.ratchet.sending_chain matches Some(nc) && nc.key@ == crate::chain::next_chain_key_of(ck)
            && nc.iteration == it + 1
    }
    &&& steps_after_send(old) ==> exists|mid: Seq<char>| #[trigger] send_step(old, new, root1, mid)
    &&& new.ratchet.sent_message_count == old.ratchet.sent_message_count + 1
    &&& new.ratchet.receiving_chain == old.ratchet.receiving_chain
    &&& new.ratchet.received_message_count == old.ratchet.received_message_count
    &&& new.ratchet.skipped_keys@ == old.ratchet.skipped_keys@
    &&& new.local_identity == old.local_identity
    &&& new.remote_identity == old.remote_identity
    &&& new.session_id == old.session_id && new.created_at == old.created_at
    &&& new.ratchet.sending_chain is Some
    &&& session_wf(old) ==> session_wf(new)
    &&& (old.ratchet.sending_chain is Some && old.dh.remote_public_key is None) ==> {
        &&& new.dh == old.dh
        &&& new.root_key == old.root_key
        &&& new.ratchet.sending_chain matches Some(nc) && nc.key@ == crate::chain::next_chain_key_of(ck)
            && nc.iteration == it + 1
    }
    &&& (old.ratchet.sending_chain is None && old.dh.remote_public_key is None) ==> {
        &&& esk.len() == 32
        &&& dh_agrees(esk)
        &&& import_key_spec(m.ephemeral_key@) == Ok::<Seq<u8>, CryptoError>(x25519_public_of(esk))
        &&& new.dh.remote_public_key is None
        &&& new.root_key.key@ == root1
        &&& new.ratchet.sending_chain == Some(ChainKey { key: new.ratchet.sending_chain->Some_0.key, iteration: (it + 1) as u32 })
        &&& new.ratchet.sending_chain->Some_0.key@ == crate::chain::next_chain_key_of(ck)
    }
}

impl RatchetSession {
    /// A session for the initiator: the root key is the shared secret, no
    /// chain yet, and a fresh ratchet key pair.
    pub fn initiate(shared_secret: &SharedSecret, local_identity: KeyPair, remote_identity: KeyPair) -> (r: Result<
        Self,
        CryptoError,
    >)
        ensures
            r matches Ok(s) && is_fresh_initiator(s, shared_secret.bytes@, remote_identity) && s.local_identity
                == local_identity && is_x25519_pair(s.dh.local_key) && is_session_id(s.session_id@),
    {
        let root_key = RootKey::new(shared_secret.bytes);
        let local_ratchet_key = crate::crypto::generate_key_pair(false);
        Ok(RatchetSession {
            local_identity,
            remote_identity: Some(public_only(&remote_identity)),
            root_key,
            ratchet: SymmetricRatchet::new(),
            dh: DhRatchet::new(local_ratchet_key),
            session_id: generate_session_id(),
            created_at: crate::primitives::now_timestamp(),
        })
    }

    /// A session for the responder: as for the initiator, but the peer's
    /// ratchet key is `remote_ratchet_key` and the local identity's private key
    /// is kept for the first receiving step.
    pub fn respond(
        shared_secret: &SharedSecret,
        local_identity: KeyPair,
        remote_identity: KeyPair,
        remote_ratchet_key: KeyPair,
    ) -> (r: Result<Self, CryptoError>)
        ensures
            r matches Ok(s) && is_fresh_responder(s, shared_secret.bytes@, local_identity, remote_ratchet_key)
                && (s.remote_identity matches Some(k) && k.public_key == remote_identity.public_key
                && k.private_key@.len() == 0) && is_x25519_pair(s.dh.local_key) && is_session_id(s.session_id@),
    {
        let root_key = RootKey::new(shared_secret.bytes);
        let local_ratchet_key = crate::crypto::generate_key_pair(false);
        let initial_local_sk = local_identity.private_key.clone();
        Ok(RatchetSession {
            local_identity,
            remote_identity: Some(public_only(&remote_identity)),
            root_key,
            ratchet: SymmetricRatchet::new(),
            dh: DhRatchet {
                local_key: local_ratchet_key,
                remote_public_key: Some(public_only(&remote_ratchet_key)),
                initial_local_sk: Some(initial_local_sk),
            },
            session_id: generate_session_id(),
            created_at: crate::primitives::now_timestamp(),
        })
    }

    /// A copy of this session.
    pub fn duplicate(&self) -> (r: Self)
        ensures
            same_session(r, *self),
    {
        RatchetSession {
            local_identity: self.local_identity.duplicate(),
            remote_identity: match &self.remote_identity {
                Some(k) => Some(k.duplicate()),
                None => None,
            },
            root_key: RootKey::new(self.root_key.key),
            ratchet: self.ratchet.duplicate(),
            dh: DhRatchet {
                local_key: self.dh.local_key.duplicate(),
                remote_public_key: match &self.dh.remote_public_key {
                    Some(k) => Some(k.duplicate()),
                    None => None,
                },
                initial_local_sk: crate::types::copy_opt_string(&self.dh.initial_local_sk),
            },
            session_id: self.session_id.clone(),
            created_at: self.created_at,
        }
    }

    /// A sending Diffie-Hellman step with the peer's ratchet key, when it is
    /// known: new root key, new sending chain, fresh local ratchet key.
    pub fn perform_dh_ratchet_initiator(&mut self) -> (r: Result<(), CryptoError>)
        ensures
            match old(self).dh.remote_public_key {
                None => r is Ok && *final(self) == *old(self),
                Some(rk) => match dh_text_spec(old(self).dh.local_key.private_key@, rk.public_key@) {
                    Err(e) => r == Err::<(), CryptoError>(e) && *final(self) == *old(self),
                    Ok(d) => {
                        &&& r is Ok
                        &&& final(self).root_key.key@ == kdf_root_of(old(self).root_key.key@, d)
                        &&& final(self).ratchet.sending_chain matches Some(c) && c.iteration == 0 && c.key@
                            == kdf_chain_of(old(self).root_key.key@, d)
                        &&& is_x25519_pair(final(self).dh.local_key)
                        &&& final(self).dh.remote_public_key == old(self).dh.remote_public_key
                        &&& final(self).dh.initial_local_sk == old(self).dh.initial_local_sk
                        &&& final(self).ratchet.receiving_chain == old(self).ratchet.receiving_chain
                        &&& final(self).ratchet.sent_message_count == old(self).ratchet.sent_message_count
                        &&& final(self).ratchet.received_message_count == old(self).ratchet.received_message_count
                        &&& final(self).ratchet.skipped_keys == old(self).ratchet.skipped_keys
                        &&& final(self).local_identity == old(self).local_identity
                        &&& final(self).remote_identity == old(self).remote_identity
                        &&& final(self).session_id == old(self).session_id
                        &&& final(self).created_at == old(self).created_at
                    },
                },
            },
    {
        if self.dh.remote_public_key.is_none() {
            return Ok(());
        }
        let (new_root, chain) = self.dh.ratchet_initiator(&self.root_key)?;
        self.root_key = new_root;
        self.ratchet.set_sending_chain(chain);
        Ok(())
    }

    /// A receiving Diffie-Hellman step with the peer's ratchet key, when it is
    /// known, using the reserved initial private key if there is one (which is
    /// then cleared) and else the local ratchet private key: new root key and
    /// new receiving chain.
    pub fn perform_dh_ratchet_respondent_with_local_sk(&mut self) -> (r: Result<(), CryptoError>)
        ensures
            match old(self).dh.remote_public_key {
                None => r is Ok && *final(self) == *old(self),
                Some(rk) => match dh_text_spec(step_private(old(self).dh), rk.public_key@) {
                    Err(e) => r == Err::<(), CryptoError>(e) && *final(self) == *old(self),
                    Ok(d) => {
                        &&& r is Ok
                        &&& final(self).root_key.key@ == kdf_root_of(old(self).root_key.key@, d)
                        &&& final(self).ratchet.receiving_chain matches Some(c) && c.iteration == 0 && c.key@
                            == kdf_chain_of(old(self).root_key.key@, d)
                        &&& final(self).dh.initial_local_sk is None
                        &&& final(self).dh.local_key == old(self).dh.local_key
                        &&& final(self).dh.remote_public_key == old(self).dh.remote_public_key
                        &&& final(self).ratchet.sending_chain == old(self).ratchet.sending_chain
                        &&& final(self).ratchet.sent_message_count == old(self).ratchet.sent_message_count
                        &&& final(self).ratchet.received_message_count == old(self).ratchet.received_message_count
                        &&& final(self).ratchet.skipped_keys == old(self).ratchet.skipped_keys
                        &&& final(self).local_identity == old(self).local_identity
                        &&& final(self).remote_identity == old(self).remote_identity
                        &&& final(self).session_id == old(self).session_id
                        &&& final(self).created_at == old(self).created_at
                    },
                },
            },
    {
        let remote = match &self.dh.remote_public_key {
            Some(k) => k,
            None => return Ok(()),
        };
        let d = match &self.dh.initial_local_sk {
            Some(sk) => crate::crypto::dh_from_b64(sk, &remote.public_key)?,
            None => crate::crypto::dh_from_b64(&self.dh.local_key.private_key, &remote.public_key)?,
        };
        let (new_root, chain) = self.root_key.kdf(&d);
        self.root_key = new_root;
        self.ratchet.set_receiving_chain(chain);
        self.dh.initial_local_sk = None;
        Ok(())
    }

    /// The receiving Diffie-Hellman step; see
    /// [`RatchetSession::perform_dh_ratchet_respondent_with_local_sk`].
    pub fn perform_dh_ratchet_respondent(&mut self) -> (r: Result<(), CryptoError>)
        ensures
            match old(self).dh.remote_public_key {
                None => r is Ok && *final(self) == *old(self),
                Some(rk) => match dh_text_spec(step_private(old(self).dh), rk.public_key@) {
                    Err(e) => r == Err::<(), CryptoError>(e) && *final(self) == *old(self),
                    Ok(d) => {
                        &&& r is Ok
                        &&& final(self).root_key.key@ == kdf_root_of(old(self).root_key.key@, d)
                        &&& final(self).ratchet.receiving_chain matches Some(c) && c.iteration == 0 && c.key@
                            == kdf_chain_of(old(self).root_key.key@, d)
                        &&& final(self).dh.initial_local_sk is None
                    },
                },
            },
    {
        self.perform_dh_ratchet_respondent_with_local_sk()
    }

    /// Encrypts `plaintext` with the next key of the sending chain. Without a
    /// sending chain, a responder steps with the peer's ratchet key, and an
    /// initiator steps with a fresh ratchet key pair and the peer's identity
    /// key. After every second message a further sending step is taken when
    /// the peer's ratchet key is known. On failure the session is unchanged.
    pub fn encrypt_message(&mut self, plaintext: &[u8]) -> (r: Result<RatchetMessage, CryptoError>)
        requires
            old(self).ratchet.wf(),
        ensures
            final(self).ratchet.wf(),
            r is Ok <==> encrypt_ok(*old(self), plaintext@.len()),
            r is Err ==> *final(self) == *old(self),
            r matches Ok(m) ==> encrypt_post(
                *old(self),
                *final(self),
                plaintext@,
                m,
                import_key_spec(final(self).dh.local_key.private_key@)->Ok_0,
            ),
    {
        let mut next = self.duplicate();
        let ghost mut esk: Seq<u8> = import_key_spec(self.dh.local_key.private_key@)->Ok_0;
        if next.ratchet.sending_chain.is_none() {
            if next.dh.remote_public_key.is_some() {
                let (new_root, chain) = next.dh.ratchet_initiator(&next.root_key)?;
                next.root_key = new_root;
                next.ratchet.set_sending_chain(chain);
            } else {
                let rid = match &next.remote_identity {
                    Some(k) => k.duplicate(),
                    None => return Err(CryptoError::Aead),
                };
                let eph = crate::crypto::generate_key_pair(false);
                proof {
                    esk = import_key_spec(eph.private_key@)->Ok_0;
                }
                let d = crate::crypto::dh_from_b64(&eph.private_key, &rid.public_key)?;
                let (new_root, chain) = next.root_key.kdf(&d);
                next.root_key = new_root;
                next.ratchet.set_sending_chain(chain);
                next.dh.local_key = eph;
            }
        }
        let mk = next.ratchet.next_message_key()?;
        let ct = self.encrypt_with_key(plaintext, &mk.key)?;
        let ghost mid = next.dh.local_key.private_key@;
        if next.ratchet.sent_message_count % 2 == 1 && next.dh.remote_public_key.is_some() {
            next.perform_dh_ratchet_initiator()?;
        }
        let _ = crate::crypto::decode32(&next.dh.local_key.public_key)?;
        let m = RatchetMessage {
            ephemeral_key: next.dh.local_key.public_key.clone(),
            ciphertext: crate::primitives::b64_encode(&ct),
            counter: next.ratchet.sent_message_count - 1,
        };
        proof {
            if steps_after_send(*old(self)) {
                let root1 = send_chain_spec(*old(self), esk)->Ok_0.0;
                assert(send_step(*old(self), next, root1, mid));
            }
        }
        assert(encrypt_post(*old(self), next, plaintext@, m, esk));
        assert(send_chain_spec(*old(self), esk) == send_chain_spec(
            *old(self),
            import_key_spec(next.dh.local_key.private_key@)->Ok_0,
        ));
        *self = next;
        Ok(m)
    }

    /// Decrypts a message. A message under a new ephemeral key first makes the
    /// session take a receiving step with it; the key for the message's counter
    /// then comes from the skipped-key cache or the receiving chain. On any
    /// failure the session is unchanged.
    pub fn decrypt_message(&mut self, encrypted: &RatchetMessage) -> (r: Result<Vec<u8>, CryptoError>)
        requires
            old(self).ratchet.wf(),
        ensures
            final(self).ratchet.wf(),
            match r {
                Ok(p) => decrypt_spec(*old(self), *encrypted) == Ok::<Seq<u8>, CryptoError>(p@),
                Err(e) => decrypt_spec(*old(self), *encrypted) == Err::<Seq<u8>, CryptoError>(e),
            },
            r is Err ==> *final(self) == *old(self),
            r is Ok ==> decrypt_post(*old(self), *final(self), *encrypted),
            r is Ok ==> {
                &&& receive_chain_spec(*old(self), encrypted.ephemeral_key@) matches Ok((root, _))
                &&& final(self).root_key.key@ == root
                &&& final(self).ratchet.received_message_count == old(self).ratchet.received_message_count + 1
                &&& final(self).ratchet.sending_chain == old(self).ratchet.sending_chain
                &&& final(self).ratchet.sent_message_count == old(self).ratchet.sent_message_count
                &&& final(self).dh.local_key == old(self).dh.local_key
                &&& final(self).local_identity == old(self).local_identity
                &&& final(self).remote_identity == old(self).remote_identity
                &&& needs_step(old(self).dh, encrypted.ephemeral_key@) ==> (final(self).dh.remote_public_key matches Some(
                    k,
                ) && k.public_key@ == encrypted.ephemeral_key@ && final(self).dh.initial_local_sk is None)
                &&& !needs_step(old(self).dh, encrypted.ephemeral_key@) ==> final(self).dh == old(self).dh
            },
    {
        let mut next = self.duplicate();
        let ghost v = skipped_view(self.ratchet.skipped_keys@);
        if next.dh.needs_update(&encrypted.ephemeral_key) {
            next.dh.remote_public_key = Some(
                KeyPair { public_key: encrypted.ephemeral_key.clone(), private_key: String::new() },
            );
            next.perform_dh_ratchet_respondent_with_local_sk()?;
        }
        let ghost chain = chain_view(next.ratchet.receiving_chain);
        assert(receive_chain_spec(*old(self), encrypted.ephemeral_key@) == Ok::<
            (Seq<u8>, Option<(Seq<u8>, u32)>),
            CryptoError,
        >((next.root_key.key@, chain)));
        let eph_text = encrypted.ephemeral_key.as_str();
        let ghost pre = next.ratchet;
        assert(v == skipped_view(pre.skipped_keys@));
        let mk_r = next.ratchet.get_message_key_for_counter(eph_text, encrypted.counter);
        proof {
            let e = encrypted.ephemeral_key@;
            let c = encrypted.counter;
            assert(e == eph_text@);
            if exists|i: int| is_first_hit(v, e, c, i) {
                let i = choose|i: int| is_first_hit(v, e, c, i);
                assert(is_first_hit(v, e, c, i));
                assert(mk_r matches Ok(k) && k.key@ == v[i].2);
            } else {
                if !crate::symmetric_ratchet::no_hit(v, e, c) {
                    lemma_first_hit_exists(v, e, c, v.len() as int);
                }
                assert(crate::symmetric_ratchet::no_hit(v, e, c));
            }
            assert(key_for_counter_spec(chain, v, e, c) == match mk_r {
                Ok(k) => Ok::<Seq<u8>, CryptoError>(k.key@),
                Err(x) => Err::<Seq<u8>, CryptoError>(x),
            });
        }
        let mk = match mk_r {
            Ok(k) => k,
            Err(x) => return Err(x),
        };
        let data = crate::crypto::b64_decode_checked(&encrypted.ciphertext)?;
        let pt = self.decrypt_with_key(&data, &mk.key)?;
        if next.ratchet.received_message_count == u32::MAX {
            return Err(CryptoError::CounterOverflow);
        }
        next.ratchet.received_message_count = next.ratchet.received_message_count + 1;
        *self = next;
        Ok(pt)
    }

    /// `nonce(12) ‖ ciphertext` of `plaintext` under a message key.
    fn encrypt_with_key(&self, plaintext: &[u8], key: &[u8; 32]) -> (r: Result<Vec<u8>, CryptoError>)
        ensures
            r is Ok <==> sealable(plaintext@.len()),
            r matches Err(e) ==> e == CryptoError::Aead,
            r matches Ok(c) ==> open_combined_spec(c@, key@) == Some(plaintext@) && c@.len() == 12 + plaintext@.len()
                + 16,
    {
        let (nonce, ct) = crate::crypto::seal_fresh(key, plaintext)?;
        let out = crate::crypto::join_nonce(&nonce, &ct);
        Ok(out)
    }

    /// Opens `nonce(12) ‖ ciphertext` under a message key.
    fn decrypt_with_key(&self, data: &[u8], key: &[u8; 32]) -> (r: Result<Vec<u8>, CryptoError>)
        ensures
            match r {
                Ok(p) => open_combined_spec(data@, key@) == Some(p@),
                Err(e) => e == CryptoError::Aead && open_combined_spec(data@, key@) is None,
            },
    {
        crate::crypto::open_combined(key, data)
    }

    /// The session's identifier.
    pub fn session_id(&self) -> (r: &str)
        ensures
            r@ == self.session_id@,
    {
        self.session_id.as_str()
    }
}

/// The public half of a peer's key pair, its private half left empty.
pub fn public_only(k: &KeyPair) -> (r: KeyPair)
    ensures
        r.public_key == k.public_key && r.private_key@.len() == 0,
{
    KeyPair { public_key: k.public_key.clone(), private_key: String::new() }
}

/// A session identifier: 24 characters of base64 text of 16 bytes.
pub open spec fn is_session_id(id: Seq<char>) -> bool {
    id.len() == 24 && (b64_decode_of(id) matches Some(b) && b.len() == 16)
}

/// A fresh session identifier: 16 random bytes, base64.
pub fn generate_session_id() -> (r: String)
    ensures
        is_session_id(r@),
{
    let bytes = crate::primitives::random_bytes(16);
    crate::primitives::b64_encode(&bytes)
}


/// What holds after [`RatchetSession::decrypt_message`] read `m` in `old`
/// and left `new`.
pub open spec fn decrypt_post(old: RatchetSession, new: RatchetSession, m: RatchetMessage) -> bool {
    &&& receive_chain_spec(old, m.ephemeral_key@) matches Ok((root, chain))
    &&& new.root_key.key@ == root
    &&& counter_step(chain, skipped_view(old.ratchet.skipped_keys@), m.ephemeral_key@, m.counter) matches Ok(
        (k, nchain, nv),
    )
    &&& chain_view(new.ratchet.receiving_chain) == nchain
    &&& skipped_view(new.ratchet.skipped_keys@) == nv
    &&& new.ratchet.received_message_count == old.ratchet.received_message_count + 1
    &&& new.ratchet.sending_chain == old.ratchet.sending_chain
    &&& new.ratchet.sent_message_count == old.ratchet.sent_message_count
    &&& key_view(new.dh.local_key) == key_view(old.dh.local_key)
    &&& key_view(new.local_identity) == key_view(old.local_identity)
    &&& opt_key_view(new.remote_identity) == opt_key_view(old.remote_identity)
    &&& needs_step(old.dh, m.ephemeral_key@) ==> (new.dh.remote_public_key matches Some(k) && k.public_key@
        == m.ephemeral_key@ && k.private_key@.len() == 0 && new.dh.initial_local_sk is None)
    &&& !needs_step(old.dh, m.ephemeral_key@) ==> (opt_key_view(new.dh.remote_public_key) == opt_key_view(
        old.dh.remote_public_key,
    ) && new.dh.initial_local_sk == old.dh.initial_local_sk)
    &&& session_wf(old) ==> session_wf(new)
}

/// `a` sends on the chain on which `b` receives, with nothing cached: the
/// state of a one-way conversation after each message was read in order.
pub open spec fn in_step(a: RatchetSession, b: RatchetSession) -> bool {
    &&& a.dh.remote_public_key is None
    &&& a.ratchet.sending_chain matches Some(ck)
    &&& ck.iteration == a.ratchet.sent_message_count
    &&& ck.iteration < u32::MAX
    &&& b.dh.remote_public_key matches Some(k) && k.public_key@ == a.dh.local_key.public_key@
    &&& chain_view(b.ratchet.receiving_chain) == Some((ck.key@, ck.iteration))
    &&& b.ratchet.skipped_keys@.len() == 0
    &&& b.ratchet.received_message_count < u32::MAX
}

/// Ratchet round trip, every further message: while the two sides are in
/// step, the next message that the sender encrypts decrypts at the receiver to
/// its plaintext, and the two sides are in step again afterwards (while the
/// counters stay below their bound).
pub proof fn lemma_next_message_round_trip(
    a: RatchetSession,
    a_after: RatchetSession,
    b: RatchetSession,
    b_after: RatchetSession,
    pt: Seq<u8>,
    m: RatchetMessage,
    esk: Seq<u8>,
)
    requires
        in_step(a, b),
        encrypt_post(a, a_after, pt, m, esk),
        a.ratchet.sent_message_count + 1 < u32::MAX,
        b.ratchet.received_message_count + 1 < u32::MAX,
    ensures
        decrypt_spec(b, m) == Ok::<Seq<u8>, CryptoError>(pt),
        decrypt_post(b, b_after, m) ==> in_step(a_after, b_after),
{
    let ck = a.ratchet.sending_chain->Some_0;
    let v = skipped_view(b.ratchet.skipped_keys@);
    assert(!needs_step(b.dh, m.ephemeral_key@));
    assert(v.len() == 0);
    assert(!exists|i: int| is_first_hit(v, m.ephemeral_key@, m.counter, i));
    assert(message_key_at(ck.key@, 0) == message_key_of(ck.key@));
    assert(chain_key_after(ck.key@, 1) == crate::chain::next_chain_key_of(chain_key_after(ck.key@, 0)));
    assert(keep_newest(v + skipped_run(m.ephemeral_key@, ck.key@, ck.iteration, 0)) =~= v);
    if decrypt_post(b, b_after, m) {
        assert(skipped_view(b_after.ratchet.skipped_keys@).len() == 0);
    }
}

/// Ratchet round trip, first message: an initiator and a responder made from
/// the same shared secret, where the initiator names the responder's identity
/// key pair as the peer. The first message that the initiator encrypts
/// decrypts at the responder to its plaintext (unless the fresh ratchet key of
/// the message happens to be the responder's seed key, which then takes no
/// step), and the two sides are in step afterwards.
pub proof fn lemma_first_message_round_trip(
    alice: RatchetSession,
    alice_after: RatchetSession,
    bob: RatchetSession,
    shared: Seq<u8>,
    bob_identity: KeyPair,
    ratchet_seed: KeyPair,
    pt: Seq<u8>,
    m: RatchetMessage,
)
    requires
        is_fresh_initiator(alice, shared, bob_identity),
        is_fresh_responder(bob, shared, bob_identity, ratchet_seed),
        is_x25519_pair(bob_identity),
        encrypt_post(alice, alice_after, pt, m, import_key_spec(alice_after.dh.local_key.private_key@)->Ok_0),
        m.ephemeral_key@ != ratchet_seed.public_key@,
    ensures
        decrypt_spec(bob, m) == Ok::<Seq<u8>, CryptoError>(pt),
        forall|bob_after: RatchetSession| #[trigger] decrypt_post(bob, bob_after, m) ==> in_step(alice_after, bob_after),
{
    let esk = import_key_spec(alice_after.dh.local_key.private_key@)->Ok_0;
    let bsk = import_key_spec(bob_identity.private_key@)->Ok_0;
    let pk = x25519_public_of(bsk);
    let d = x25519_dh_of(esk, pk);
    assert(x25519_dh_of(bsk, x25519_public_of(esk)) == x25519_dh_of(esk, x25519_public_of(bsk)));
    assert(dh_text_spec(step_private(bob.dh), m.ephemeral_key@) == Ok::<Seq<u8>, CryptoError>(d));
    let ck = kdf_chain_of(shared, d);
    assert(receive_chain_spec(bob, m.ephemeral_key@) == Ok::<(Seq<u8>, Option<(Seq<u8>, u32)>), CryptoError>(
        (kdf_root_of(shared, d), Some((ck, 0u32))),
    ));
    let v = skipped_view(bob.ratchet.skipped_keys@);
    assert(v.len() == 0);
    assert(!exists|i: int| is_first_hit(v, m.ephemeral_key@, m.counter, i));
    assert(message_key_at(ck, 0) == message_key_of(ck));
    assert(chain_key_after(ck, 1) == crate::chain::next_chain_key_of(chain_key_after(ck, 0)));
    assert(keep_newest(v + skipped_run(m.ephemeral_key@, ck, 0, 0)) =~= v);
    assert forall|bob_after: RatchetSession| #[trigger] decrypt_post(bob, bob_after, m) implies in_step(
        alice_after,
        bob_after,
    ) by {
        assert(skipped_view(bob_after.ratchet.skipped_keys@).len() == 0);
    }
}

/// Out-of-order delivery within a chain, for sessions: while the two sides
/// are in step, the sender encrypts `pt2` into `m2` and then `pt3` into `m3`;
/// the receiver reads `m3` first, then `m2`. Both decrypt to their plaintexts,
/// the key of `m2` waits in the cache in between, and the cache is empty again
/// afterwards (while the counters stay below their bound).
pub proof fn lemma_out_of_order_round_trip(
    a1: RatchetSession,
    a2: RatchetSession,
    a3: RatchetSession,
    b1: RatchetSession,
    b2: RatchetSession,
    b3: RatchetSession,
    pt2: Seq<u8>,
    pt3: Seq<u8>,
    m2: RatchetMessage,
    m3: RatchetMessage,
    esk2: Seq<u8>,
    esk3: Seq<u8>,
)
    requires
        in_step(a1, b1),
        encrypt_post(a1, a2, pt2, m2, esk2),
        encrypt_post(a2, a3, pt3, m3, esk3),
        a1.ratchet.sent_message_count + 2 < u32::MAX,
        b1.ratchet.received_message_count + 2 < u32::MAX,
    ensures
        decrypt_spec(b1, m3) == Ok::<Seq<u8>, CryptoError>(pt3),
        decrypt_post(b1, b2, m3) ==> {
            &&& skipped_view(b2.ratchet.skipped_keys@).len() == 1
            &&& decrypt_spec(b2, m2) == Ok::<Seq<u8>, CryptoError>(pt2)
            &&& decrypt_post(b2, b3, m2) ==> b3.ratchet.skipped_keys@.len() == 0
        },
{
    let ck = a1.ratchet.sending_chain->Some_0;
    let it = ck.iteration;
    let e = m3.ephemeral_key@;
    assert(m2.ephemeral_key == m3.ephemeral_key);
    let v: Seq<SkippedView> = skipped_view(b1.ratchet.skipped_keys@);
    assert(v.len() == 0);
    assert(!needs_step(b1.dh, e));
    assert(!exists|i: int| is_first_hit(v, e, m3.counter, i));
    crate::chain::lemma_chain_compose(ck.key@, 1, 1);
    crate::chain::lemma_chain_compose(ck.key@, 0, 1);
    assert(chain_key_after(ck.key@, 1) == crate::chain::next_chain_key_of(chain_key_after(ck.key@, 0)));
    assert(message_key_at(ck.key@, 1) == message_key_of(crate::chain::next_chain_key_of(ck.key@)));
    let nv = keep_newest(v + skipped_run(e, ck.key@, it, 1));
    assert(nv =~= seq![(e, it, message_key_at(ck.key@, 0))]);
    if decrypt_post(b1, b2, m3) {
        let v2 = skipped_view(b2.ratchet.skipped_keys@);
        assert(v2 == nv);
        assert(!needs_step(b2.dh, m2.ephemeral_key@));
        assert(is_first_hit(v2, m2.ephemeral_key@, m2.counter, 0));
        assert(message_key_at(ck.key@, 0) == message_key_of(ck.key@));
        if decrypt_post(b2, b3, m2) {
            assert(skipped_view(b3.ratchet.skipped_keys@).len() == 0);
        }
    }
}

/// The first `k` messages of a one-way conversation decrypt, and the two
/// sides are in step after them.
proof fn lemma_one_way_prefix(
    a: Seq<RatchetSession>,
    b: Seq<RatchetSession>,
    pts: Seq<Seq<u8>>,
    ms: Seq<RatchetMessage>,
    shared: Seq<u8>,
    bob_identity: KeyPair,
    ratchet_seed: KeyPair,
    k: int,
)
    requires
        a.len() == ms.len() + 1,
        b.len() == ms.len() + 1,
        pts.len() == ms.len(),
        ms.len() + 1 < u32::MAX,
        1 <= k <= ms.len(),
        is_fresh_initiator(a[0], shared, bob_identity),
        is_fresh_responder(b[0], shared, bob_identity, ratchet_seed),
        is_x25519_pair(bob_identity),
        ms[0].ephemeral_key@ != ratchet_seed.public_key@,
        forall|i: int|
            0 <= i < ms.len() ==> encrypt_post(
                #[trigger] a[i],
                a[i + 1],
                pts[i],
                ms[i],
                import_key_spec(a[i + 1].dh.local_key.private_key@)->Ok_0,
            ),
        forall|i: int| 0 <= i < ms.len() ==> decrypt_post(#[trigger] b[i], b[i + 1], ms[i]),
    ensures
        in_step(a[k], b[k]),
        a[k].ratchet.sent_message_count == k,
        b[k].ratchet.received_message_count == k,
        forall|i: int| 0 <= i < k ==> decrypt_spec(#[trigger] b[i], ms[i]) == Ok::<Seq<u8>, CryptoError>(pts[i]),
    decreases k,
{
    assert(encrypt_post(a[0], a[1], pts[0], ms[0], import_key_spec(a[1].dh.local_key.private_key@)->Ok_0));
    assert(decrypt_post(b[0], b[1], ms[0]));
    lemma_first_message_round_trip(a[0], a[1], b[0], shared, bob_identity, ratchet_seed, pts[0], ms[0]);
    if k > 1 {
        lemma_one_way_prefix(a, b, pts, ms, shared, bob_identity, ratchet_seed, k - 1);
        let j = k - 1;
        assert(encrypt_post(a[j], a[j + 1], pts[j], ms[j], import_key_spec(a[j + 1].dh.local_key.private_key@)->Ok_0));
        assert(decrypt_post(b[j], b[j + 1], ms[j]));
        lemma_next_message_round_trip(
            a[j],
            a[j + 1],
            b[j],
            b[j + 1],
            pts[j],
            ms[j],
            import_key_spec(a[j + 1].dh.local_key.private_key@)->Ok_0,
        );
    }
}

/// Ratchet round trip for a one-way conversation: an initiator and a
/// responder are made from the same shared secret, the initiator naming the
/// responder's identity key pair as the peer. The initiator's sessions
/// `a[0..n]` encrypt `pts[i]` into `ms[i]`, and the responder's sessions
/// `b[0..n]` read the messages in order. Then every message decrypts to its
/// plaintext (unless the first message's fresh ratchet key happens to be the
/// responder's seed key).
pub proof fn lemma_one_way_round_trip(
    a: Seq<RatchetSession>,
    b: Seq<RatchetSession>,
    pts: Seq<Seq<u8>>,
    ms: Seq<RatchetMessage>,
    shared: Seq<u8>,
    bob_identity: KeyPair,
    ratchet_seed: KeyPair,
)
    requires
        a.len() == ms.len() + 1,
        b.len() == ms.len() + 1,
        pts.len() == ms.len(),
        ms.len() + 1 < u32::MAX,
        is_fresh_initiator(a[0], shared, bob_identity),
        is_fresh_responder(b[0], shared, bob_identity, ratchet_seed),
        is_x25519_pair(bob_identity),
        ms.len() > 0 ==> ms[0].ephemeral_key@ != ratchet_seed.public_key@,
        forall|i: int|
            0 <= i < ms.len() ==> encrypt_post(
                #[trigger] a[i],
                a[i + 1],
                pts[i],
                ms[i],
                import_key_spec(a[i + 1].dh.local_key.private_key@)->Ok_0,
            ),
        forall|i: int| 0 <= i < ms.len() ==> decrypt_post(#[trigger] b[i], b[i + 1], ms[i]),
    ensures
        forall|i: int| 0 <= i < ms.len() ==> decrypt_spec(#[trigger] b[i], ms[i]) == Ok::<Seq<u8>, CryptoError>(pts[i]),
{
    if ms.len() > 0 {
        lemma_one_way_prefix(a, b, pts, ms, shared, bob_identity, ratchet_seed, ms.len() as int);
    }
}

/// Format version of [`RatchetSessionState`].
pub const SESSION_STATE_VERSION: u32 = 1;

/// A serializable snapshot of a [`RatchetSession`]: every key by value, as
/// base64 text, so that [`RatchetSession::from_state`] restores the same session.
#[derive(Debug, Clone)]
pub struct RatchetSessionState {
    /// Format version; only [`SESSION_STATE_VERSION`] is read back.
    pub version: u32,
    pub session_id: String,
    /// Root key (base64, 32 bytes).
    pub root_key: String,
    pub local_identity_public: String,
    pub local_identity_private: String,
    /// The peer's identity public key.
    pub remote_identity: Option<String>,
    /// Chains, counters and skipped keys.
    pub ratchet: SymmetricRatchetState,
    /// Ratchet key pair, the peer's ratchet key and the reserved private key.
    pub dh: DhRatchetState,
    pub created_at: i64,
}

/// The peer's keys are held public-only and the cache is within its bound,
/// as in every session that this library makes.
pub open spec fn session_wf(s: RatchetSession) -> bool {
    &&& s.ratchet.wf()
    &&& s.remote_identity matches Some(k) ==> k.private_key@.len() == 0
    &&& s.dh.remote_public_key matches Some(k) ==> k.private_key@.len() == 0
}

/// `st` is a snapshot of `s`.
pub open spec fn snapshot_of(st: RatchetSessionState, s: RatchetSession) -> bool {
    &&& st.version == SESSION_STATE_VERSION
    &&& st.session_id == s.session_id
    &&& import_key_spec(st.root_key@) == Ok::<Seq<u8>, CryptoError>(s.root_key.key@)
    &&& st.local_identity_public == s.local_identity.public_key
    &&& st.local_identity_private == s.local_identity.private_key
    &&& st.remote_identity == match s.remote_identity {
        Some(k) => Some(k.public_key),
        None => None,
    }
    &&& chain_saved(s.ratchet.sending_chain, st.ratchet.sending_chain_key, st.ratchet.sending_counter)
    &&& chain_saved(s.ratchet.receiving_chain, st.ratchet.receiving_chain_key, st.ratchet.receiving_counter)
    &&& st.ratchet.sent_message_count == s.ratchet.sent_message_count
    &&& st.ratchet.received_message_count == s.ratchet.received_message_count
    &&& st.ratchet.skipped_keys@ == s.ratchet.skipped_keys@
    &&& st.dh.local_public_key == s.dh.local_key.public_key
    &&& st.dh.local_private_key == s.dh.local_key.private_key
    &&& st.dh.remote_public_key == match s.dh.remote_public_key {
        Some(k) => Some(k.public_key),
        None => None,
    }
    &&& st.dh.initial_local_sk == s.dh.initial_local_sk
    &&& st.created_at == s.created_at
}

/// [`RatchetSession::from_state`] accepts `st`.
pub open spec fn state_ok(st: RatchetSessionState) -> bool {
    &&& st.version == SESSION_STATE_VERSION
    &&& import_key_spec(st.root_key@) is Ok
    &&& chain_text_ok(st.ratchet.sending_chain_key)
    &&& chain_text_ok(st.ratchet.receiving_chain_key)
    &&& st.ratchet.skipped_keys@.len() <= 1000
}

/// `s` is the session that `st` restores.
pub open spec fn restored_from(s: RatchetSession, st: RatchetSessionState) -> bool {
    &&& session_wf(s)
    &&& s.session_id == st.session_id
    &&& import_key_spec(st.root_key@) == Ok::<Seq<u8>, CryptoError>(s.root_key.key@)
    &&& s.local_identity.public_key == st.local_identity_public
    &&& s.local_identity.private_key == st.local_identity_private
    &&& match st.remote_identity {
        Some(p) => s.remote_identity matches Some(k) && k.public_key == p,
        None => s.remote_identity is None,
    }
    &&& chain_restored(st.ratchet.sending_chain_key, st.ratchet.sending_counter, s.ratchet.sending_chain)
    &&& chain_restored(st.ratchet.receiving_chain_key, st.ratchet.receiving_counter, s.ratchet.receiving_chain)
    &&& s.ratchet.sent_message_count == st.ratchet.sent_message_count
    &&& s.ratchet.received_message_count == st.ratchet.received_message_count
    &&& s.ratchet.skipped_keys@ == st.ratchet.skipped_keys@
    &&& s.dh.local_key.public_key == st.dh.local_public_key
    &&& s.dh.local_key.private_key == st.dh.local_private_key
    &&& match st.dh.remote_public_key {
        Some(p) => s.dh.remote_public_key matches Some(k) && k.public_key == p,
        None => s.dh.remote_public_key is None,
    }
    &&& s.dh.initial_local_sk == st.dh.initial_local_sk
    &&& s.created_at == st.created_at
}

/// State serialization: restoring a snapshot of a session gives back the same
/// session.
pub proof fn lemma_state_round_trip(s: RatchetSession, st: RatchetSessionState, back: RatchetSession)
    requires
        session_wf(s),
        snapshot_of(st, s),
        restored_from(back, st),
    ensures
        state_ok(st),
        same_observable(back, s),
{
    lemma_chain_restore(s.ratchet.sending_chain, st.ratchet.sending_chain_key, st.ratchet.sending_counter, back.ratchet.sending_chain);
    lemma_chain_restore(s.ratchet.receiving_chain, st.ratchet.receiving_chain_key, st.ratchet.receiving_counter, back.ratchet.receiving_chain);
    assert(back.root_key.key =~= s.root_key.key);
    assert(back.local_identity == s.local_identity);
    match s.remote_identity {
        Some(k) => {
            let b = back.remote_identity->Some_0;
            assert(b.private_key@ =~= k.private_key@);
        },
        None => {},
    }
    match s.dh.remote_public_key {
        Some(k) => {
            let b = back.dh.remote_public_key->Some_0;
            assert(b.private_key@ =~= k.private_key@);
        },
        None => {},
    }
    assert(back.dh.local_key == s.dh.local_key);
    assert(skipped_view(back.ratchet.skipped_keys@) == skipped_view(s.ratchet.skipped_keys@));
}

/// `before` is restored from `state`, encrypting `pt` in it gave `m` and
/// `after`, and `st` is the snapshot of `after`.
pub open spec fn encrypted_between(
    state: RatchetSessionState,
    st: RatchetSessionState,
    before: RatchetSession,
    after: RatchetSession,
    pt: Seq<u8>,
    m: RatchetMessage,
) -> bool {
    &&& restored_from(before, state)
    &&& snapshot_of(st, after)
    &&& encrypt_post(before, after, pt, m, import_key_spec(after.dh.local_key.private_key@)->Ok_0)
}

impl RatchetSession {
    /// A snapshot of the session.
    pub fn session_state(&self) -> (r: RatchetSessionState)
        ensures
            snapshot_of(r, *self),
    {
        RatchetSessionState {
            version: SESSION_STATE_VERSION,
            session_id: self.session_id.clone(),
            root_key: crate::crypto::export_private_key_b64(&self.root_key.key),
            local_identity_public: self.local_identity.public_key.clone(),
            local_identity_private: self.local_identity.private_key.clone(),
            remote_identity: match &self.remote_identity {
                Some(k) => Some(k.public_key.clone()),
                None => None,
            },
            ratchet: self.ratchet.to_state(),
            dh: self.dh.to_state(),
            created_at: self.created_at,
        }
    }

    /// The session of a snapshot. Refused: another format version
    /// (`UnsupportedVersion`), a root or chain key that is not base64 of 32
    /// bytes (`Base64`, `InvalidKeyLen`), or too many skipped keys
    /// (`SkipLimitExceeded`).
    pub fn from_state(state: &RatchetSessionState) -> (r: Result<Self, CryptoError>)
        ensures
            r is Ok <==> state_ok(*state),
            r matches Ok(s) ==> restored_from(s, *state),
            state.version != SESSION_STATE_VERSION ==> r == Err::<Self, CryptoError>(
                CryptoError::UnsupportedVersion(state.version),
            ),
            state.version == SESSION_STATE_VERSION ==> match import_key_spec(state.root_key@) {
                Err(e) => r == Err::<Self, CryptoError>(e),
                Ok(_) => r matches Err(e) ==> crate::symmetric_ratchet::ratchet_state_check(state.ratchet)
                    == Err::<(), CryptoError>(e),
            },
    {
        if state.version != SESSION_STATE_VERSION {
            return Err(CryptoError::UnsupportedVersion(state.version));
        }
        let root = crate::crypto::import_private_key_b64(&state.root_key)?;
        let ratchet = SymmetricRatchet::from_state(&state.ratchet)?;
        let dh = crate::dh_ratchet::DhRatchet::from_state(&state.dh);
        Ok(RatchetSession {
            local_identity: KeyPair {
                public_key: state.local_identity_public.clone(),
                private_key: state.local_identity_private.clone(),
            },
            remote_identity: match &state.remote_identity {
                Some(p) => Some(KeyPair { public_key: p.clone(), private_key: String::new() }),
                None => None,
            },
            root_key: RootKey::new(root),
            ratchet,
            dh,
            session_id: state.session_id.clone(),
            created_at: state.created_at,
        })
    }

    /// Restores a snapshot, encrypts `plaintext`, and returns the new snapshot
    /// with the message: one step that an embedder persists atomically. It
    /// succeeds exactly when the snapshot is readable and the restored session
    /// can encrypt.
    pub fn encrypt_message_with_state(state: &RatchetSessionState, plaintext: &[u8]) -> (r: Result<
        (RatchetSessionState, RatchetMessage),
        CryptoError,
    >)
        ensures
            !state_ok(*state) ==> r is Err,
            state_ok(*state) ==> forall|s: RatchetSession|
                #[trigger] restored_from(s, *state) ==> (r is Ok <==> encrypt_ok(s, plaintext@.len())),
            r matches Ok((st, m)) ==> exists|before: RatchetSession, after: RatchetSession|
                #[trigger] encrypted_between(*state, st, before, after, plaintext@, m),
    {
        let mut session = Self::from_state(state)?;
        let ghost before = session;
        let er = session.encrypt_message(plaintext);
        proof {
            assert forall|s: RatchetSession| #[trigger] restored_from(s, *state) implies (er is Ok <==> encrypt_ok(
                s,
                plaintext@.len(),
            )) by {
                lemma_restored_fields(s, before, *state);
            }
        }
        let message = er?;
        let new_state = session.session_state();
        let out = (new_state, message);
        assert(encrypted_between(*state, out.0, before, session, plaintext@, out.1));
        let r = Ok(out);
        assert(r matches Ok((st, m)) && encrypted_between(*state, st, before, session, plaintext@, m));
        r
    }

    /// Restores a snapshot, decrypts `message`, and returns the new snapshot
    /// with the plaintext. For every session that the snapshot restores, the
    /// result is what [`decrypt_spec`] gives, and the new snapshot is one of
    /// the session after decryption. A failure leaves the caller's snapshot as
    /// the state to keep.
    pub fn decrypt_message_with_state(state: &RatchetSessionState, message: &RatchetMessage) -> (r: Result<
        (RatchetSessionState, Vec<u8>),
        CryptoError,
    >)
        ensures
            !state_ok(*state) ==> r is Err,
            state_ok(*state) ==> forall|s: RatchetSession|
                #[trigger] restored_from(s, *state) ==> match r {
                    Ok((st, p)) => decrypt_spec(s, *message) == Ok::<Seq<u8>, CryptoError>(p@) && exists|
                        a: RatchetSession,
                    | #[trigger] decrypted_into(s, st, a, *message),
                    Err(e) => decrypt_spec(s, *message) == Err::<Seq<u8>, CryptoError>(e),
                },
    {
        let mut session = Self::from_state(state)?;
        let ghost before = session;
        let dr = session.decrypt_message(message);
        let plaintext = match dr {
            Ok(p) => p,
            Err(e) => {
                proof {
                    assert forall|s: RatchetSession| #[trigger] restored_from(s, *state) implies decrypt_spec(
                        s,
                        *message,
                    ) == Err::<Seq<u8>, CryptoError>(e) by {
                        lemma_restored_agree(s, before, *state, *message);
                    }
                }
                return Err(e);
            },
        };
        let new_state = session.session_state();
        proof {
            assert forall|s: RatchetSession| #[trigger] restored_from(s, *state) implies decrypt_spec(s, *message)
                == Ok::<Seq<u8>, CryptoError>(plaintext@) && exists|a: RatchetSession|
                #[trigger] decrypted_into(s, new_state, a, *message) by {
                lemma_restored_agree(s, before, *state, *message);
                assert(decrypted_into(s, new_state, session, *message));
            }
        }
        Ok((new_state, plaintext))
    }
}

/// `st` is a snapshot of `a`, the session that reading `m` in `s` left.
pub open spec fn decrypted_into(s: RatchetSession, st: RatchetSessionState, a: RatchetSession, m: RatchetMessage) -> bool {
    snapshot_of(st, a) && decrypt_post(s, a, m)
}

/// Two sessions that one snapshot restores hold the same keys, chains,
/// counters and cache, and encrypt under the same condition.
pub proof fn lemma_restored_fields(s1: RatchetSession, s2: RatchetSession, st: RatchetSessionState)
    requires
        restored_from(s1, st),
        restored_from(s2, st),
    ensures
        s1.ratchet.sending_chain == s2.ratchet.sending_chain,
        s1.ratchet.receiving_chain == s2.ratchet.receiving_chain,
        s1.root_key == s2.root_key,
        s1.dh.local_key == s2.dh.local_key,
        s1.local_identity == s2.local_identity,
        opt_key_view(s1.remote_identity) == opt_key_view(s2.remote_identity),
        opt_key_view(s1.dh.remote_public_key) == opt_key_view(s2.dh.remote_public_key),
        forall|len: nat| encrypt_ok(s1, len) == #[trigger] encrypt_ok(s2, len),
{
    lemma_chain_restored_unique(
        st.ratchet.sending_chain_key,
        st.ratchet.sending_counter,
        s1.ratchet.sending_chain,
        s2.ratchet.sending_chain,
    );
    lemma_chain_restored_unique(
        st.ratchet.receiving_chain_key,
        st.ratchet.receiving_counter,
        s1.ratchet.receiving_chain,
        s2.ratchet.receiving_chain,
    );
    assert(s1.root_key.key =~= s2.root_key.key);
    assert(s1.dh.local_key == s2.dh.local_key);
    assert(s1.local_identity == s2.local_identity);
    match s1.remote_identity {
        Some(k) => {
            assert(k.private_key@ =~= s2.remote_identity->Some_0.private_key@);
        },
        None => {},
    }
    match s1.dh.remote_public_key {
        Some(k) => {
            assert(k.private_key@ =~= s2.dh.remote_public_key->Some_0.private_key@);
        },
        None => {},
    }
}

/// Two sessions that one snapshot restores decrypt `m` alike and leave the
/// same states behind.
pub proof fn lemma_restored_agree(s1: RatchetSession, s2: RatchetSession, st: RatchetSessionState, m: RatchetMessage)
    requires
        restored_from(s1, st),
        restored_from(s2, st),
    ensures
        decrypt_spec(s1, m) == decrypt_spec(s2, m),
        forall|a: RatchetSession| decrypt_post(s1, a, m) == #[trigger] decrypt_post(s2, a, m),
{
    lemma_restored_fields(s1, s2, st);
    assert(step_private(s1.dh) == step_private(s2.dh));
    assert(needs_step(s1.dh, m.ephemeral_key@) == needs_step(s2.dh, m.ephemeral_key@));
    assert(receive_chain_spec(s1, m.ephemeral_key@) == receive_chain_spec(s2, m.ephemeral_key@));
}

} // verus!
