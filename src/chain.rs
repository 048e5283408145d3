//! Chain keys and the root key of the Double Ratchet.
//!
//! A chain key yields a message key as `HMAC-SHA256(ck, [0x01])` and moves on
//! to `HMAC-SHA256(ck, [0x02])`. The root key and a Diffie-Hellman output give a
//! new root key and a fresh chain key through HKDF-SHA256.
use vstd::prelude::*;
use crate::primitives::{hmac_sha256, hmac_sha256_of, hkdf_sha256, hkdf_sha256_of};

verus! {

/// The message key that a chain key with bytes `ck` yields.
pub open spec fn message_key_of(ck: Seq<u8>) -> Seq<u8> {
    hmac_sha256_of(ck, seq![1u8])
}

/// The chain key that follows a chain key with bytes `ck`.
pub open spec fn next_chain_key_of(ck: Seq<u8>) -> Seq<u8> {
    hmac_sha256_of(ck, seq![2u8])
}

/// The bytes of a chain key after `n` steps from `ck`.
pub open spec fn chain_key_after(ck: Seq<u8>, n: nat) -> Seq<u8>
    decreases n,
{
    if n == 0 {
        ck
    } else {
        next_chain_key_of(chain_key_after(ck, (n - 1) as nat))
    }
}

/// The message key issued at `n` steps from a chain key with bytes `ck`.
pub open spec fn message_key_at(ck: Seq<u8>, n: nat) -> Seq<u8> {
    message_key_of(chain_key_after(ck, n))
}

/// The new root key that `root` and a Diffie-Hellman output give: the first
/// half of 64 bytes of HKDF-SHA256 keyed by the root, with the output as info.
pub open spec fn kdf_root_of(root: Seq<u8>, dh: Seq<u8>) -> Seq<u8> {
    hkdf_sha256_of(root, dh, 64).subrange(0, 32)
}

/// The new chain key of the same step: the second half.
pub open spec fn kdf_chain_of(root: Seq<u8>, dh: Seq<u8>) -> Seq<u8> {
    hkdf_sha256_of(root, dh, 64).subrange(32, 64)
}

/// Moving a chain `m` steps and then `n` steps is moving it `m + n` steps.
pub proof fn lemma_chain_compose(c: Seq<u8>, m: nat, n: nat)
    ensures
        chain_key_after(chain_key_after(c, m), n) == chain_key_after(c, m + n),
    decreases n,
{
    if n > 0 {
        lemma_chain_compose(c, m, (n - 1) as nat);
    }
}

/// Chain determinism: the message keys of a chain are a function of its key
/// bytes alone. Two chains with the same bytes issue the same key at every
/// position, and the key at position `m + n` is the key at `n` of the chain
/// moved `m` steps on.
pub proof fn lemma_chain_determinism(a: Seq<u8>, b: Seq<u8>, m: nat, n: nat)
    requires
        a == b,
    ensures
        message_key_at(a, n) == message_key_at(b, n),
        message_key_at(chain_key_after(a, m), n) == message_key_at(a, m + n),
{
    lemma_chain_compose(a, m, n);
}

/// Root KDF determinism: the new root key and chain key of a step are a
/// function of the root key bytes and the Diffie-Hellman output alone.
pub proof fn lemma_root_kdf_determinism(r1: Seq<u8>, d1: Seq<u8>, r2: Seq<u8>, d2: Seq<u8>)
    requires
        r1 == r2,
        d1 == d2,
    ensures
        kdf_root_of(r1, d1) == kdf_root_of(r2, d2),
        kdf_chain_of(r1, d1) == kdf_chain_of(r2, d2),
{
}

/// A key for exactly one message, with the chain position it was issued at.
#[derive(Debug, Clone)]
pub struct MessageKey {
    pub key: [u8; 32],
    pub iteration: u32,
}

impl Drop for MessageKey {
    /// The key bytes are overwritten with zeros when the value is dropped.
    fn drop(&mut self)
        opens_invariants none
        no_unwind
    {
        crate::primitives::scrub(&mut self.key);
    }
}

impl MessageKey {
    pub fn new(key: [u8; 32], iteration: u32) -> (r: Self)
        ensures
            r.key == key && r.iteration == iteration,
    {
        MessageKey { key, iteration }
    }

    pub fn as_bytes(&self) -> (r: &[u8; 32])
        ensures
            *r == self.key,
    {
        &self.key
    }
}

/// A symmetric chain key and the number of message keys issued from it so far.
#[derive(Debug, Clone)]
pub struct ChainKey {
    pub key: [u8; 32],
    pub iteration: u32,
}

impl Drop for ChainKey {
    /// The key bytes are overwritten with zeros when the value is dropped.
    fn drop(&mut self)
        opens_invariants none
        no_unwind
    {
        crate::primitives::scrub(&mut self.key);
    }
}

impl ChainKey {
    /// A fresh chain at position 0.
    pub fn new(key: [u8; 32]) -> (r: Self)
        ensures
            r.key == key && r.iteration == 0,
    {
        ChainKey { key, iteration: 0 }
    }

    /// A chain restored at a given position.
    pub fn from_state(key: [u8; 32], iteration: u32) -> (r: Self)
        ensures
            r.key == key && r.iteration == iteration,
    {
        ChainKey { key, iteration }
    }

    /// A copy of this chain.
    pub fn duplicate(&self) -> (r: Self)
        ensures
            r == *self,
    {
        ChainKey { key: self.key, iteration: self.iteration }
    }

    /// Issues the message key at the current position and moves one step on.
    pub fn next(&mut self) -> (r: MessageKey)
        requires
            old(self).iteration < u32::MAX,
        ensures
            r.key@ == message_key_of(old(self).key@),
            r.iteration == old(self).iteration,
            final(self).key@ == next_chain_key_of(old(self).key@),
            final(self).iteration == old(self).iteration + 1,
    {
        let mk = hmac_sha256(&self.key, &[1u8]);
        let ck = hmac_sha256(&self.key, &[2u8]);
        assert([1u8]@ =~= seq![1u8]);
        assert([2u8]@ =~= seq![2u8]);
        let message_key = MessageKey::new(mk, self.iteration);
        self.key = ck;
        self.iteration = self.iteration + 1;
        message_key
    }

    /// The chain moved on to position `target_iteration` (or unchanged when it
    /// is already there or beyond); `self` is left as it is.
    pub fn skip_to(&self, target_iteration: u32) -> (r: ChainKey)
        ensures
            target_iteration <= self.iteration ==> r == *self,
            target_iteration > self.iteration ==> r.iteration == target_iteration
                && r.key@ == chain_key_after(self.key@, (target_iteration - self.iteration) as nat),
    {
        let mut skipped = self.duplicate();
        while skipped.iteration < target_iteration
            invariant
                self.iteration <= skipped.iteration,
                skipped.iteration <= target_iteration || skipped == *self,
                skipped.key@ == chain_key_after(self.key@, (skipped.iteration - self.iteration) as nat),
                skipped.iteration == self.iteration ==> skipped == *self,
            decreases target_iteration - skipped.iteration,
        {
            let _ = skipped.next();
        }
        skipped
    }

    pub fn get_key(&self) -> (r: &[u8; 32])
        ensures
            *r == self.key,
    {
        &self.key
    }
}

/// The root key of a session.
#[derive(Debug, Clone)]
pub struct RootKey {
    pub key: [u8; 32],
}

impl Drop for RootKey {
    /// The key bytes are overwritten with zeros when the value is dropped.
    fn drop(&mut self)
        opens_invariants none
        no_unwind
    {
        crate::primitives::scrub(&mut self.key);
    }
}

impl RootKey {
    pub fn new(key: [u8; 32]) -> (r: Self)
        ensures
            r.key == key,
    {
        RootKey { key }
    }

    /// Root key and Diffie-Hellman output to a new root key and a fresh chain key.
    pub fn kdf(&self, dh_output: &[u8]) -> (r: (RootKey, ChainKey))
        ensures
            r.0.key@ == kdf_root_of(self.key@, dh_output@),
            r.1.key@ == kdf_chain_of(self.key@, dh_output@),
            r.1.iteration == 0,
    {
        let okm = hkdf_sha256(&self.key, dh_output, 64);
        let root = RootKey::new(crate::bytes::array32_at(&okm, 0));
        let chain = ChainKey::new(crate::bytes::array32_at(&okm, 32));
        (root, chain)
    }

    pub fn get_key(&self) -> (r: &[u8; 32])
        ensures
            *r == self.key,
    {
        &self.key
    }
}

/// A message key kept back for a message of the chain of `ephemeral_key` that
/// has not arrived yet.
#[derive(Debug, Clone)]
pub struct SkippedMessageKey {
    pub ephemeral_key: String,
    pub counter: u32,
    pub key: [u8; 32],
}

impl Drop for SkippedMessageKey {
    /// The key bytes are overwritten with zeros when the entry is dropped.
    fn drop(&mut self)
        opens_invariants none
        no_unwind
    {
        crate::primitives::scrub(&mut self.key);
    }
}

impl SkippedMessageKey {
    pub fn new(ephemeral_key: String, counter: u32, key: [u8; 32]) -> (r: Self)
        ensures
            r.ephemeral_key == ephemeral_key && r.counter == counter && r.key == key,
    {
        SkippedMessageKey { ephemeral_key, counter, key }
    }

    /// A copy of this entry.
    pub fn duplicate(&self) -> (r: Self)
        ensures
            r == *self,
    {
        SkippedMessageKey { ephemeral_key: self.ephemeral_key.clone(), counter: self.counter, key: self.key }
    }
}

} // verus!
