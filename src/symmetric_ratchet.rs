//! The symmetric half of the Double Ratchet: a sending chain, a receiving
//! chain, their counters, and a bounded cache of message keys that were skipped
//! over for messages that have not arrived yet.
use vstd::prelude::*;
use crate::chain::{ChainKey, MessageKey, SkippedMessageKey, chain_key_after, lemma_chain_compose, message_key_at, message_key_of, next_chain_key_of};
use crate::error::CryptoError;

verus! {

/// Most skipped message keys that a ratchet keeps, and most that one request
/// may skip.
pub const MAX_SKIPPED_KEYS: usize = 1000;

/// A skipped key entry as plain values: ephemeral key text, counter, key bytes.
pub type SkippedView = (Seq<char>, u32, Seq<u8>);

/// The entries of a skipped-key cache as plain values.
pub open spec fn skipped_view(v: Seq<SkippedMessageKey>) -> Seq<SkippedView> {
    v.map_values(|s: SkippedMessageKey| (s.ephemeral_key@, s.counter, s.key@))
}

/// Entry `i` is the first one for (`eph`, `counter`).
pub open spec fn is_first_hit(v: Seq<SkippedView>, eph: Seq<char>, counter: u32, i: int) -> bool {
    &&& 0 <= i < v.len()
    &&& v[i].0 == eph && v[i].1 == counter
    &&& forall|j: int| 0 <= j < i ==> !(v[j].0 == eph && v[j].1 == counter)
}

/// No entry is for (`eph`, `counter`).
pub open spec fn no_hit(v: Seq<SkippedView>, eph: Seq<char>, counter: u32) -> bool {
    forall|j: int| 0 <= j < v.len() ==> !(v[j].0 == eph && v[j].1 == counter)
}

/// The keys skipped over when a chain at position `it` with bytes `ck` moves
/// `n` steps, all filed under `eph`.
pub open spec fn skipped_run(eph: Seq<char>, ck: Seq<u8>, it: u32, n: nat) -> Seq<SkippedView> {
    Seq::new(n, |j: int| (eph, (it + j) as u32, message_key_at(ck, j as nat)))
}

/// The newest `MAX_SKIPPED_KEYS` entries of `v`.
pub open spec fn keep_newest(v: Seq<SkippedView>) -> Seq<SkippedView> {
    if v.len() > 1000 {
        v.subrange(v.len() - 1000, v.len() as int)
    } else {
        v
    }
}

/// A chain as its key bytes and position.
pub open spec fn chain_view(c: Option<ChainKey>) -> Option<(Seq<u8>, u32)> {
    match c {
        Some(k) => Some((k.key@, k.iteration)),
        None => None,
    }
}

/// Some entry is for (`eph`, `counter`), so a first one is.
pub proof fn lemma_first_hit_exists(v: Seq<SkippedView>, eph: Seq<char>, counter: u32, n: int)
    requires
        0 <= n <= v.len(),
        exists|j: int| 0 <= j < n && v[j].0 == eph && v[j].1 == counter,
    ensures
        exists|i: int| is_first_hit(v, eph, counter, i),
    decreases n,
{
    if exists|j: int| 0 <= j < n - 1 && v[j].0 == eph && v[j].1 == counter {
        lemma_first_hit_exists(v, eph, counter, n - 1);
    } else {
        assert(is_first_hit(v, eph, counter, n - 1));
    }
}

/// One request for the key of (`eph`, `counter`) on a receiving chain and a
/// cache: the key, the chain after, and the cache after.
pub open spec fn counter_step(
    recv: Option<(Seq<u8>, u32)>,
    v: Seq<SkippedView>,
    eph: Seq<char>,
    counter: u32,
) -> Result<(Seq<u8>, Option<(Seq<u8>, u32)>, Seq<SkippedView>), CryptoError> {
    if exists|i: int| is_first_hit(v, eph, counter, i) {
        let i = choose|i: int| is_first_hit(v, eph, counter, i);
        Ok((v[i].2, recv, v.remove(i)))
    } else {
        match recv {
            None => Err(CryptoError::Aead),
            Some((c, it)) => if counter < it {
                Err(CryptoError::OldMessage)
            } else if counter - it > 1000 {
                Err(CryptoError::SkipLimitExceeded)
            } else if counter == u32::MAX {
                Err(CryptoError::CounterOverflow)
            } else {
                let n = (counter - it) as nat;
                Ok(
                    (
                        message_key_at(c, n),
                        Some((chain_key_after(c, n + 1), (counter + 1) as u32)),
                        keep_newest(v + skipped_run(eph, c, it, n)),
                    ),
                )
            },
        }
    }
}

/// Out-of-order delivery within a chain: the keys of messages 0, 2 and 1 of
/// a receiving chain, asked for in that order on an empty cache, are the
/// chain's keys at those positions, and the cache is empty again afterwards.
pub proof fn lemma_out_of_order_within_chain(c: Seq<u8>, it: u32, eph: Seq<char>)
    requires
        it + 3 < u32::MAX,
    ensures
        ({
            let s1 = counter_step(Some((c, it)), Seq::empty(), eph, it);
            &&& s1 matches Ok((k0, r1, v1))
            &&& k0 == message_key_at(c, 0)
            &&& counter_step(r1, v1, eph, (it + 2) as u32) matches Ok((k2, r2, v2))
            &&& k2 == message_key_at(c, 2)
            &&& v2.len() == 1
            &&& counter_step(r2, v2, eph, (it + 1) as u32) matches Ok((k1, r3, v3))
            &&& k1 == message_key_at(c, 1)
            &&& v3.len() == 0
        }),
{
    let e: Seq<SkippedView> = Seq::empty();
    assert(!exists|i: int| is_first_hit(e, eph, it, i));
    assert(keep_newest(e + skipped_run(eph, c, it, 0)) =~= e);
    let c1 = chain_key_after(c, 1);
    let it2 = (it + 2) as u32;
    assert(!exists|i: int| is_first_hit(e, eph, it2, i));
    let v2 = keep_newest(e + skipped_run(eph, c1, (it + 1) as u32, 1));
    assert(v2 =~= seq![(eph, (it + 1) as u32, message_key_at(c1, 0))]);
    lemma_chain_compose(c, 1, 1);
    lemma_chain_compose(c, 1, 0);
    assert(message_key_at(c1, 1) == message_key_at(c, 2));
    assert(message_key_at(c1, 0) == message_key_at(c, 1));
    let it1 = (it + 1) as u32;
    assert(is_first_hit(v2, eph, it1, 0));
    assert(v2.remove(0).len() == 0);
}

pub struct SymmetricRatchet {
    /// Chain for outgoing messages.
    pub sending_chain: Option<ChainKey>,
    /// Chain for incoming messages.
    pub receiving_chain: Option<ChainKey>,
    /// Messages sent so far.
    pub sent_message_count: u32,
    /// Messages received so far.
    pub received_message_count: u32,
    /// Message keys skipped over, oldest first.
    pub skipped_keys: Vec<SkippedMessageKey>,
}

impl SymmetricRatchet {
    /// The cache stays within its bound.
    pub open spec fn wf(&self) -> bool {
        self.skipped_keys@.len() <= 1000
    }

    pub fn new() -> (r: Self)
        ensures
            r.wf(),
            r.sending_chain is None && r.receiving_chain is None,
            r.sent_message_count == 0 && r.received_message_count == 0,
            r.skipped_keys@.len() == 0,
    {
        SymmetricRatchet {
            sending_chain: None,
            receiving_chain: None,
            sent_message_count: 0,
            received_message_count: 0,
            skipped_keys: Vec::new(),
        }
    }

    /// Issues the next message key of the sending chain and counts the message.
    pub fn next_message_key(&mut self) -> (r: Result<MessageKey, CryptoError>)
        ensures
            match old(self).sending_chain {
                None => r == Err::<MessageKey, CryptoError>(CryptoError::Aead) && *final(self) == *old(self),
                Some(ck) => if ck.iteration == u32::MAX || old(self).sent_message_count == u32::MAX {
                    r == Err::<MessageKey, CryptoError>(CryptoError::CounterOverflow) && *final(self) == *old(self)
                } else {
                    &&& r matches Ok(mk)
                    &&& mk.key@ == message_key_of(ck.key@) && mk.iteration == ck.iteration
                    &&& final(self).sending_chain matches Some(nc) && nc.iteration == ck.iteration + 1
                        && nc.key@ == next_chain_key_of(ck.key@)
                    &&& final(self).sent_message_count == old(self).sent_message_count + 1
                    &&& final(self).receiving_chain == old(self).receiving_chain
                    &&& final(self).received_message_count == old(self).received_message_count
                    &&& final(self).skipped_keys == old(self).skipped_keys
                },
            },
    {
        let mut ck = match &self.sending_chain {
            Some(c) => c.duplicate(),
            None => return Err(CryptoError::Aead),
        };
        if ck.iteration == u32::MAX || self.sent_message_count == u32::MAX {
            return Err(CryptoError::CounterOverflow);
        }
        let mk = ck.next();
        self.sending_chain = Some(ck);
        self.sent_message_count = self.sent_message_count + 1;
        Ok(mk)
    }

    /// The message key for message `counter` of the chain of `ephemeral_key`.
    /// A key kept in the cache is taken out and returned. Otherwise the
    /// receiving chain moves to `counter`, filing the keys that it passes over
    /// in the cache (of which the newest 1000 are kept), and issues the key.
    pub fn get_message_key_for_counter(&mut self, ephemeral_key: &str, counter: u32) -> (r: Result<
        MessageKey,
        CryptoError,
    >)
        requires
            old(self).wf(),
        ensures
            final(self).wf(),
            counter_step(chain_view(old(self).receiving_chain), skipped_view(old(self).skipped_keys@), ephemeral_key@, counter)
                == match r {
                Ok(mk) => Ok((mk.key@, chain_view(final(self).receiving_chain), skipped_view(final(self).skipped_keys@))),
                Err(e) => Err(e),
            },
            ({
                let v = skipped_view(old(self).skipped_keys@);
                let e = ephemeral_key@;
                &&& forall|i: int|
                    #[trigger] is_first_hit(v, e, counter, i) ==> {
                        &&& r matches Ok(mk) && mk.key@ == v[i].2 && mk.iteration == counter
                        &&& skipped_view(final(self).skipped_keys@) == v.remove(i)
                        &&& final(self).sending_chain == old(self).sending_chain
                        &&& final(self).receiving_chain == old(self).receiving_chain
                        &&& final(self).sent_message_count == old(self).sent_message_count
                        &&& final(self).received_message_count == old(self).received_message_count
                    }
                &&& no_hit(v, e, counter) ==> match old(self).receiving_chain {
                    None => r == Err::<MessageKey, CryptoError>(CryptoError::Aead) && *final(self) == *old(self),
                    Some(ck) => if counter < ck.iteration {
                        r == Err::<MessageKey, CryptoError>(CryptoError::OldMessage) && *final(self) == *old(self)
                    } else if counter - ck.iteration > 1000 {
                        r == Err::<MessageKey, CryptoError>(CryptoError::SkipLimitExceeded) && *final(self) == *old(
                            self,
                        )
                    } else if counter == u32::MAX {
                        r == Err::<MessageKey, CryptoError>(CryptoError::CounterOverflow) && *final(self) == *old(
                            self,
                        )
                    } else {
                        let n = (counter - ck.iteration) as nat;
                        &&& r matches Ok(mk) && mk.key@ == message_key_at(ck.key@, n) && mk.iteration == counter
                        &&& final(self).receiving_chain matches Some(nc) && nc.iteration == counter + 1 && nc.key@
                            == chain_key_after(ck.key@, n + 1)
                        &&& skipped_view(final(self).skipped_keys@) == keep_newest(
                            v + skipped_run(e, ck.key@, ck.iteration, n),
                        )
                        &&& final(self).sending_chain == old(self).sending_chain
                        &&& final(self).sent_message_count == old(self).sent_message_count
                        &&& final(self).received_message_count == old(self).received_message_count
                    },
                }
            }),
    {
        let ghost v = skipped_view(self.skipped_keys@);
        let eph: String = ephemeral_key.to_owned();
        let n = self.skipped_keys.len();
        let mut i: usize = 0;
        while i < n
            invariant
                n == self.skipped_keys@.len(),
                i <= n,
                *self == *old(self),
                old(self).wf(),
                v == skipped_view(self.skipped_keys@),
                eph@ == ephemeral_key@,
                forall|j: int| 0 <= j < i ==> !(v[j].0 == eph@ && v[j].1 == counter),
            decreases n - i,
        {
            if self.skipped_keys[i].counter == counter && self.skipped_keys[i].ephemeral_key == eph {
                let ghost before = self.skipped_keys@;
                let skipped = self.skipped_keys.remove(i);
                proof {
                    assert(is_first_hit(v, eph@, counter, i as int));
                    assert(self.skipped_keys@ == before.remove(i as int));
                    assert(self.skipped_keys@.len() == before.len() - 1);
                    assert(skipped == before[i as int]);
                    assert(v[i as int] == (skipped.ephemeral_key@, skipped.counter, skipped.key@));
                    assert(skipped_view(self.skipped_keys@) =~= v.remove(i as int));
                    assert forall|k: int| is_first_hit(v, eph@, counter, k) implies k == i by {
                        if k < i {
                        } else if k > i {
                            assert(!(v[i as int].0 == eph@ && v[i as int].1 == counter));
                        }
                    }
                }
                return Ok(MessageKey::new(skipped.key, counter));
            }
            i = i + 1;
        }
        assert(no_hit(v, eph@, counter));
        assert(!exists|k: int| is_first_hit(v, eph@, counter, k));
        let mut ck = match &self.receiving_chain {
            Some(c) => c.duplicate(),
            None => return Err(CryptoError::Aead),
        };
        if counter < ck.iteration {
            return Err(CryptoError::OldMessage);
        }
        if counter - ck.iteration > 1000 {
            return Err(CryptoError::SkipLimitExceeded);
        }
        if counter == u32::MAX {
            return Err(CryptoError::CounterOverflow);
        }
        let ghost start = ck;
        while ck.iteration < counter
            invariant
                start.iteration <= ck.iteration <= counter,
                counter < u32::MAX,
                counter - start.iteration <= 1000,
                v.len() <= 1000,
                eph@ == ephemeral_key@,
                ck.key@ == chain_key_after(start.key@, (ck.iteration - start.iteration) as nat),
                skipped_view(self.skipped_keys@) == v + skipped_run(
                    eph@,
                    start.key@,
                    start.iteration,
                    (ck.iteration - start.iteration) as nat,
                ),
                self.sending_chain == old(self).sending_chain,
                self.receiving_chain == old(self).receiving_chain,
                self.sent_message_count == old(self).sent_message_count,
                self.received_message_count == old(self).received_message_count,
            decreases counter - ck.iteration,
        {
            let ghost j = (ck.iteration - start.iteration) as nat;
            let mk = ck.next();
            let entry = SkippedMessageKey::new(eph.clone(), mk.iteration, mk.key);
            let ghost before = self.skipped_keys@;
            self.skipped_keys.push(entry);
            proof {
                assert(self.skipped_keys@ == before.push(entry));
                assert(skipped_view(self.skipped_keys@) =~= skipped_view(before).push(
                    (entry.ephemeral_key@, entry.counter, entry.key@),
                ));
                assert(mk.key@ == message_key_at(start.key@, j));
                assert(skipped_run(eph@, start.key@, start.iteration, j + 1) =~= skipped_run(
                    eph@,
                    start.key@,
                    start.iteration,
                    j,
                ).push((eph@, mk.iteration, mk.key@)));
                assert(skipped_view(self.skipped_keys@) =~= v + skipped_run(
                    eph@,
                    start.key@,
                    start.iteration,
                    j + 1,
                ));
            }
        }
        let ghost full = skipped_view(self.skipped_keys@);
        while self.skipped_keys.len() > MAX_SKIPPED_KEYS
            invariant
                full.len() <= 2000,
                1000 <= self.skipped_keys@.len() || full.len() <= 1000,
                self.skipped_keys@.len() <= full.len(),
                full.len() > 1000 ==> self.skipped_keys@.len() >= 1000,
                full.len() <= 1000 ==> self.skipped_keys@.len() == full.len(),
                skipped_view(self.skipped_keys@) == full.subrange(
                    full.len() - self.skipped_keys@.len(),
                    full.len() as int,
                ),
                self.sending_chain == old(self).sending_chain,
                self.receiving_chain == old(self).receiving_chain,
                self.sent_message_count == old(self).sent_message_count,
                self.received_message_count == old(self).received_message_count,
            decreases self.skipped_keys@.len(),
        {
            let ghost before = self.skipped_keys@;
            let _ = self.skipped_keys.remove(0);
            assert(self.skipped_keys@ == before.remove(0));
            assert(skipped_view(self.skipped_keys@) =~= skipped_view(before).subrange(1, before.len() as int));
            assert(skipped_view(self.skipped_keys@) =~= full.subrange(
                full.len() - self.skipped_keys@.len(),
                full.len() as int,
            ));
        }
        assert(skipped_view(self.skipped_keys@) =~= keep_newest(full));
        let mk = ck.next();
        self.receiving_chain = Some(ck);
        Ok(mk)
    }

    /// A copy of this ratchet.
    pub fn duplicate(&self) -> (r: Self)
        ensures
            r.sending_chain == self.sending_chain,
            r.receiving_chain == self.receiving_chain,
            r.sent_message_count == self.sent_message_count,
            r.received_message_count == self.received_message_count,
            r.skipped_keys@ == self.skipped_keys@,
    {
        SymmetricRatchet {
            sending_chain: match &self.sending_chain {
                Some(c) => Some(c.duplicate()),
                None => None,
            },
            receiving_chain: match &self.receiving_chain {
                Some(c) => Some(c.duplicate()),
                None => None,
            },
            sent_message_count: self.sent_message_count,
            received_message_count: self.received_message_count,
            skipped_keys: copy_skipped(&self.skipped_keys),
        }
    }

    pub fn set_sending_chain(&mut self, chain_key: ChainKey)
        ensures
            final(self).sending_chain == Some(chain_key),
            final(self).receiving_chain == old(self).receiving_chain,
            final(self).sent_message_count == old(self).sent_message_count,
            final(self).received_message_count == old(self).received_message_count,
            final(self).skipped_keys == old(self).skipped_keys,
    {
        self.sending_chain = Some(chain_key);
    }

    pub fn set_receiving_chain(&mut self, chain_key: ChainKey)
        ensures
            final(self).receiving_chain == Some(chain_key),
            final(self).sending_chain == old(self).sending_chain,
            final(self).sent_message_count == old(self).sent_message_count,
            final(self).received_message_count == old(self).received_message_count,
            final(self).skipped_keys == old(self).skipped_keys,
    {
        self.receiving_chain = Some(chain_key);
    }

    pub fn get_sending_counter(&self) -> (r: u32)
        ensures
            r == self.sent_message_count,
    {
        self.sent_message_count
    }

    pub fn get_receiving_counter(&self) -> (r: u32)
        ensures
            r == self.received_message_count,
    {
        self.received_message_count
    }

    /// Whether there is no sending chain yet.
    pub fn needs_sending_chain(&self) -> (r: bool)
        ensures
            r == self.sending_chain is None,
    {
        self.sending_chain.is_none()
    }

    /// Whether there is no receiving chain yet.
    pub fn needs_receiving_chain(&self) -> (r: bool)
        ensures
            r == self.receiving_chain is None,
    {
        self.receiving_chain.is_none()
    }

    /// A snapshot of the ratchet: chain keys as base64 with their positions.
    pub fn to_state(&self) -> (r: SymmetricRatchetState)
        ensures
            chain_saved(self.sending_chain, r.sending_chain_key, r.sending_counter),
            chain_saved(self.receiving_chain, r.receiving_chain_key, r.receiving_counter),
            r.sent_message_count == self.sent_message_count,
            r.received_message_count == self.received_message_count,
            r.skipped_keys@ == self.skipped_keys@,
    {
        let (sending_chain_key, sending_counter) = save_chain(&self.sending_chain);
        let (receiving_chain_key, receiving_counter) = save_chain(&self.receiving_chain);
        SymmetricRatchetState {
            sending_chain_key,
            sending_counter,
            receiving_chain_key,
            receiving_counter,
            sent_message_count: self.sent_message_count,
            received_message_count: self.received_message_count,
            skipped_keys: copy_skipped(&self.skipped_keys),
        }
    }

    /// The ratchet of a snapshot. A chain key that is not base64 of 32 bytes is
    /// refused (`Base64` or `InvalidKeyLen`), as is a cache over its bound
    /// (`SkipLimitExceeded`); a chain without a stored position starts at 0.
    pub fn from_state(state: &SymmetricRatchetState) -> (r: Result<Self, CryptoError>)
        ensures
            r is Ok <==> chain_text_ok(state.sending_chain_key) && chain_text_ok(state.receiving_chain_key)
                && state.skipped_keys@.len() <= 1000,
            r matches Err(e) ==> ratchet_state_check(*state) == Err::<(), CryptoError>(e),
            r matches Ok(s) ==> {
                &&& s.wf()
                &&& chain_restored(state.sending_chain_key, state.sending_counter, s.sending_chain)
                &&& chain_restored(state.receiving_chain_key, state.receiving_counter, s.receiving_chain)
                &&& s.sent_message_count == state.sent_message_count
                &&& s.received_message_count == state.received_message_count
                &&& s.skipped_keys@ == state.skipped_keys@
            },
    {
        let sending_chain = restore_chain(&state.sending_chain_key, state.sending_counter)?;
        let receiving_chain = restore_chain(&state.receiving_chain_key, state.receiving_counter)?;
        if state.skipped_keys.len() > MAX_SKIPPED_KEYS {
            return Err(CryptoError::SkipLimitExceeded);
        }
        Ok(SymmetricRatchet {
            sending_chain,
            receiving_chain,
            sent_message_count: state.sent_message_count,
            received_message_count: state.received_message_count,
            skipped_keys: copy_skipped(&state.skipped_keys),
        })
    }
}


impl Default for SymmetricRatchet {
    fn default() -> (r: Self)
        ensures
            r.wf(),
            r.sending_chain is None && r.receiving_chain is None,
            r.sent_message_count == 0 && r.received_message_count == 0,
            r.skipped_keys@.len() == 0,
    {
        SymmetricRatchet::new()
    }
}

/// A serializable snapshot of a [`SymmetricRatchet`].
#[derive(Debug, Clone)]
pub struct SymmetricRatchetState {
    pub sending_chain_key: Option<String>,
    pub sending_counter: Option<u32>,
    pub receiving_chain_key: Option<String>,
    pub receiving_counter: Option<u32>,
    pub sent_message_count: u32,
    pub received_message_count: u32,
    pub skipped_keys: Vec<SkippedMessageKey>,
}

/// `text` and `counter` are what a snapshot holds for `chain`.
pub open spec fn chain_saved(chain: Option<ChainKey>, text: Option<String>, counter: Option<u32>) -> bool {
    match chain {
        None => text is None && counter is None,
        Some(c) => text matches Some(t) && crate::crypto::import_key_spec(t@) == Ok::<Seq<u8>, CryptoError>(c.key@)
            && counter == Some(c.iteration),
    }
}

/// The error of a stored chain key text that is not base64 of 32 bytes.
pub open spec fn chain_text_error(text: Option<String>) -> Option<CryptoError> {
    match text {
        Some(t) => match crate::crypto::import_key_spec(t@) {
            Err(e) => Some(e),
            Ok(_) => None,
        },
        None => None,
    }
}

/// The first check of [`SymmetricRatchet::from_state`] that fails, if any:
/// the sending chain key, the receiving chain key, then the cache bound.
pub open spec fn ratchet_state_check(st: SymmetricRatchetState) -> Result<(), CryptoError> {
    match chain_text_error(st.sending_chain_key) {
        Some(e) => Err(e),
        None => match chain_text_error(st.receiving_chain_key) {
            Some(e) => Err(e),
            None => if st.skipped_keys@.len() > 1000 {
                Err(CryptoError::SkipLimitExceeded)
            } else {
                Ok(())
            },
        },
    }
}

/// A stored chain key text, if any, is base64 of 32 bytes.
pub open spec fn chain_text_ok(text: Option<String>) -> bool {
    text matches Some(t) ==> crate::crypto::import_key_spec(t@) is Ok
}

/// `chain` is what a snapshot's `text` and `counter` restore.
pub open spec fn chain_restored(text: Option<String>, counter: Option<u32>, chain: Option<ChainKey>) -> bool {
    match text {
        None => chain is None,
        Some(t) => chain matches Some(c) && crate::crypto::import_key_spec(t@) == Ok::<Seq<u8>, CryptoError>(c.key@)
            && c.iteration == match counter {
                Some(n) => n,
                None => 0,
            },
    }
}

/// A saved chain restores to the chain it was saved from.
/// A snapshot's chain text and counter restore to one chain only.
pub proof fn lemma_chain_restored_unique(text: Option<String>, counter: Option<u32>, c1: Option<ChainKey>, c2: Option<ChainKey>)
    requires
        chain_restored(text, counter, c1),
        chain_restored(text, counter, c2),
    ensures
        c1 == c2,
{
    match text {
        Some(_) => {
            assert(c1->Some_0.key =~= c2->Some_0.key);
        },
        None => {},
    }
}

pub proof fn lemma_chain_restore(chain: Option<ChainKey>, text: Option<String>, counter: Option<u32>, back: Option<ChainKey>)
    requires
        chain_saved(chain, text, counter),
        chain_restored(text, counter, back),
    ensures
        chain_text_ok(text),
        back == chain,
{
    match chain {
        None => {},
        Some(c) => {
            let b = back->Some_0;
            assert(b.key@ == c.key@);
            assert(b.key =~= c.key);
        },
    }
}

pub(crate) fn save_chain(chain: &Option<ChainKey>) -> (r: (Option<String>, Option<u32>))
    ensures
        chain_saved(*chain, r.0, r.1),
{
    match chain {
        Some(c) => (Some(crate::crypto::export_private_key_b64(&c.key)), Some(c.iteration)),
        None => (None, None),
    }
}

pub(crate) fn restore_chain(text: &Option<String>, counter: Option<u32>) -> (r: Result<Option<ChainKey>, CryptoError>)
    ensures
        r is Ok <==> chain_text_ok(*text),
        r matches Ok(c) ==> chain_restored(*text, counter, c),
        r matches Err(e) ==> (text matches Some(t) && crate::crypto::import_key_spec(t@) == Err::<Seq<u8>, CryptoError>(e)),
{
    match text {
        Some(t) => {
            let key = crate::crypto::import_private_key_b64(t)?;
            let it = match counter {
                Some(n) => n,
                None => 0,
            };
            Ok(Some(ChainKey::from_state(key, it)))
        },
        None => Ok(None),
    }
}

/// A copy of a skipped-key cache.
pub(crate) fn copy_skipped(v: &Vec<SkippedMessageKey>) -> (r: Vec<SkippedMessageKey>)
    ensures
        r@ == v@,
{
    let mut r: Vec<SkippedMessageKey> = Vec::new();
    let mut i: usize = 0;
    while i < v.len()
        invariant
            i <= v@.len(),
            r@ == v@.subrange(0, i as int),
        decreases v@.len() - i,
    {
        r.push(v[i].duplicate());
        i = i + 1;
        assert(r@ =~= v@.subrange(0, i as int));
    }
    assert(r@ =~= v@);
    r
}

} // verus!
