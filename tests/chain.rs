use ren_sdk::chain::{ChainKey, RootKey};
use ren_sdk::crypto_provider::generate_dh_keypair;
use ren_sdk::dh_ratchet::DhRatchet;
use ren_sdk::crypto::generate_key_pair;
use ren_sdk::protocol::SharedSecret;
use ren_sdk::symmetric_ratchet::SymmetricRatchet;
use ren_sdk::error::CryptoError;

#[test]
fn chain_test_chain_key_derivation() {
    let mut chain_key = ChainKey::new([1u8; 32]);

    let key1 = chain_key.next();
    let key2 = chain_key.next();

    assert_ne!(key1.as_bytes(), key2.as_bytes());
    assert_eq!(key1.iteration, 0);
    assert_eq!(key2.iteration, 1);
}

#[test]
fn chain_test_root_key_kdf() {
    let root_key = RootKey::new([1u8; 32]);
    let dh_output = [2u8; 32];

    let (new_root, chain_key) = root_key.kdf(&dh_output);

    assert_ne!(root_key.key, new_root.key);
    assert_eq!(chain_key.iteration, 0);
}

#[test]
fn session_test_chain_key_derivation() {
    let mut chain_key = ChainKey::new([1u8; 32]);

    let key1 = chain_key.next();
    let key2 = chain_key.next();

    assert_ne!(key1.as_bytes(), key2.as_bytes());
    assert_eq!(key1.iteration, 0);
    assert_eq!(key2.iteration, 1);
}

#[test]
fn session_test_root_key_kdf() {
    let root_key = RootKey::new([1u8; 32]);
    let dh_output = [2u8; 32];

    let (new_root, chain_key) = root_key.kdf(&dh_output);

    assert_ne!(root_key.key, new_root.key);
    assert_eq!(chain_key.iteration, 0);
}

#[test]
fn test_chain_key_skip() {
    let chain_key = ChainKey::new([1u8; 32]);

    let skipped = chain_key.skip_to(5);
    assert_eq!(skipped.iteration, 5);

    assert_eq!(chain_key.iteration, 0);
}

#[test]
fn chain_next_is_deterministic() {
    let mut a = ChainKey::new([7u8; 32]);
    let mut b = ChainKey::new([7u8; 32]);
    for _ in 0..4 {
        let ka = a.next();
        let kb = b.next();
        assert_eq!(ka.as_bytes(), kb.as_bytes());
        assert_eq!(ka.iteration, kb.iteration);
    }
    assert_eq!(a.get_key(), b.get_key());
}

#[test]
fn chain_skip_matches_stepping() {
    let start = ChainKey::new([9u8; 32]);
    let mut stepped = start.clone();
    for _ in 0..3 {
        stepped.next();
    }
    let skipped = start.skip_to(3);
    assert_eq!(skipped.get_key(), stepped.get_key());
    assert_eq!(skipped.iteration, 3);
    let back = skipped.skip_to(1);
    assert_eq!(back.iteration, 3);
}

fn hex(b: &[u8]) -> String {
    b.iter().map(|x| format!("{:02x}", x)).collect()
}

#[test]
fn chain_message_key_is_hmac_of_chain_key() {
    // HMAC-SHA256 under the all-zero 32-byte key, over [0x01] and [0x02].
    let mut ck = ChainKey::new([0u8; 32]);
    let mk = ck.next();
    assert_eq!(hex(mk.as_bytes()), "3d7afb663124ecbf2c953f863d4fc8796eeb2d372b64aad58697ec5264649cdb");
    assert_eq!(hex(ck.get_key()), "4ee7be0c7872360ca67414608081e9bd60fd580a7bbd209701d2a5a0b4316d0d");
    assert_eq!(mk.iteration, 0);
    assert_eq!(ck.iteration, 1);
}

#[test]
fn root_kdf_splits_hkdf_output() {
    // HKDF-SHA256, empty salt, ikm = 32 x 0x01, info = 32 x 0x02, 64 bytes.
    let (root, chain) = RootKey::new([1u8; 32]).kdf(&[2u8; 32]);
    assert_eq!(hex(root.get_key()), "409b19f3755ff9514bde4aed778ec7af744029ff1eb3c059a371def5915f7153");
    assert_eq!(hex(chain.get_key()), "33c3e47a7a92add82009f18ce9af103a708fca1cb17c81d8ae8ae223d9908ca6");
}

#[test]
fn root_kdf_is_deterministic() {
    let a = RootKey::new([3u8; 32]);
    let b = RootKey::new([3u8; 32]);
    let (ra, ca) = a.kdf(&[4u8; 32]);
    let (rb, cb) = b.kdf(&[4u8; 32]);
    assert_eq!(ra.get_key(), rb.get_key());
    assert_eq!(ca.get_key(), cb.get_key());
    assert_ne!(ra.get_key(), ca.get_key());
    let (rc, _) = a.kdf(&[5u8; 32]);
    assert_ne!(ra.get_key(), rc.get_key());
}

#[test]
fn test_generate_dh_keypair() {
    let keypair = generate_dh_keypair();
    assert!(!keypair.public_key.is_empty());
    assert!(!keypair.private_key.is_empty());
}

#[test]
fn test_dh_ratchet_initiator() {
    let shared_secret = SharedSecret::new([42u8; 32]);
    let root_key = RootKey::new(*shared_secret.as_bytes());

    let local_key = generate_key_pair(false);
    let remote_key = generate_key_pair(false);

    let mut ratchet = DhRatchet::new(local_key);
    ratchet.set_remote_public_key(remote_key);

    let (new_root, chain_key) = ratchet.ratchet_initiator(&root_key).unwrap();

    assert_ne!(root_key.get_key(), new_root.get_key());
    assert_eq!(chain_key.iteration, 0);
}

#[test]
fn test_dh_ratchet_respondent() {
    let shared_secret = SharedSecret::new([42u8; 32]);
    let root_key = RootKey::new(*shared_secret.as_bytes());

    let local_key = generate_key_pair(false);
    let remote_key = generate_key_pair(false);

    let mut ratchet = DhRatchet::for_respondent(local_key, remote_key.private_key.clone());
    ratchet.set_remote_public_key(remote_key);

    let (new_root, chain_key) = ratchet.ratchet_respondent(&root_key).unwrap();

    assert_ne!(root_key.get_key(), new_root.get_key());
    assert_eq!(chain_key.iteration, 0);
    assert!(ratchet.initial_local_sk.is_none());
}

#[test]
fn dh_ratchet_without_remote_key_fails() {
    let root_key = RootKey::new([1u8; 32]);
    let mut ratchet = DhRatchet::new(generate_key_pair(false));
    assert_eq!(ratchet.ratchet_initiator(&root_key).unwrap_err(), CryptoError::Aead);
    assert!(ratchet.needs_update("anything"));
}

#[test]
fn dh_ratchet_state_round_trip() {
    let mut ratchet = DhRatchet::for_respondent(generate_key_pair(false), "c2VjcmV0".to_string());
    let remote = generate_key_pair(false);
    ratchet.set_remote_public_key(remote.clone());
    let back = DhRatchet::from_state(&ratchet.to_state());
    assert_eq!(back.local_key, ratchet.local_key);
    assert_eq!(back.remote_public_key.as_ref().unwrap().public_key, remote.public_key);
    assert_eq!(back.initial_local_sk, ratchet.initial_local_sk);
    assert!(!back.needs_update(&remote.public_key));
}

#[test]
fn test_next_message_key() {
    let shared_secret = SharedSecret::new([42u8; 32]);
    let root_key = RootKey::new(*shared_secret.as_bytes());
    let (_, chain_key) = root_key.kdf(&[1u8; 32]);

    let mut ratchet = SymmetricRatchet::new();
    ratchet.set_sending_chain(chain_key);

    let key1 = ratchet.next_message_key().unwrap();
    let key2 = ratchet.next_message_key().unwrap();

    assert_ne!(key1.as_bytes(), key2.as_bytes());
    assert_eq!(ratchet.get_sending_counter(), 2);
}

#[test]
fn test_out_of_order_message() {
    let shared_secret = SharedSecret::new([42u8; 32]);
    let root_key = RootKey::new(*shared_secret.as_bytes());
    let (_, chain_key) = root_key.kdf(&[1u8; 32]);

    let mut ratchet = SymmetricRatchet::new();
    ratchet.set_receiving_chain(chain_key);

    let key0 = ratchet.get_message_key_for_counter("ephemeral", 0).unwrap();
    let key2 = ratchet.get_message_key_for_counter("ephemeral", 2).unwrap();
    let key1 = ratchet.get_message_key_for_counter("ephemeral", 1).unwrap();

    assert_ne!(key0.as_bytes(), key1.as_bytes());
    assert_ne!(key1.as_bytes(), key2.as_bytes());
}

#[test]
fn symmetric_out_of_order_keys_match_chain_and_cache_empties() {
    let chain = ChainKey::new([5u8; 32]);
    let mut expected = chain.clone();
    let k0 = expected.next();
    let k1 = expected.next();
    let k2 = expected.next();

    let mut ratchet = SymmetricRatchet::new();
    ratchet.set_receiving_chain(chain);
    assert_eq!(ratchet.get_message_key_for_counter("e", 0).unwrap().as_bytes(), k0.as_bytes());
    assert_eq!(ratchet.get_message_key_for_counter("e", 2).unwrap().as_bytes(), k2.as_bytes());
    assert_eq!(ratchet.skipped_keys.len(), 1);
    let got1 = ratchet.get_message_key_for_counter("e", 1).unwrap();
    assert_eq!(got1.as_bytes(), k1.as_bytes());
    assert_eq!(got1.iteration, 1);
    assert_eq!(ratchet.skipped_keys.len(), 0);
}

#[test]
fn symmetric_errors() {
    let mut ratchet = SymmetricRatchet::new();
    assert_eq!(ratchet.next_message_key().unwrap_err(), CryptoError::Aead);
    assert_eq!(ratchet.get_message_key_for_counter("e", 0).unwrap_err(), CryptoError::Aead);

    ratchet.set_receiving_chain(ChainKey::from_state([1u8; 32], 5));
    assert_eq!(ratchet.get_message_key_for_counter("e", 3).unwrap_err(), CryptoError::OldMessage);
    assert_eq!(ratchet.get_message_key_for_counter("e", 1006).unwrap_err(), CryptoError::SkipLimitExceeded);
    assert!(ratchet.get_message_key_for_counter("e", 1005).is_ok());
    assert_eq!(ratchet.skipped_keys.len(), 1000);

    ratchet.set_sending_chain(ChainKey::from_state([1u8; 32], u32::MAX));
    assert_eq!(ratchet.next_message_key().unwrap_err(), CryptoError::CounterOverflow);
}

#[test]
fn symmetric_cache_keeps_newest_thousand() {
    let mut ratchet = SymmetricRatchet::new();
    ratchet.set_receiving_chain(ChainKey::new([2u8; 32]));
    ratchet.get_message_key_for_counter("a", 600).unwrap();
    ratchet.get_message_key_for_counter("a", 1200).unwrap();
    assert_eq!(ratchet.skipped_keys.len(), 1000);
    assert_eq!(ratchet.skipped_keys[0].counter, 199);
    assert_eq!(ratchet.skipped_keys[999].counter, 1199);
}

#[test]
fn symmetric_state_round_trip() {
    let mut ratchet = SymmetricRatchet::default();
    ratchet.set_sending_chain(ChainKey::from_state([3u8; 32], 4));
    ratchet.set_receiving_chain(ChainKey::new([4u8; 32]));
    ratchet.get_message_key_for_counter("x", 3).unwrap();
    let state = ratchet.to_state();
    let back = SymmetricRatchet::from_state(&state).unwrap();
    assert_eq!(back.sending_chain.as_ref().unwrap().get_key(), &[3u8; 32]);
    assert_eq!(back.sending_chain.as_ref().unwrap().iteration, 4);
    assert_eq!(back.receiving_chain.as_ref().unwrap().iteration, 4);
    assert_eq!(back.skipped_keys.len(), 3);
    assert!(!back.needs_sending_chain());
    assert!(!back.needs_receiving_chain());

    let mut bad = state.clone();
    bad.sending_chain_key = Some("AAAA".to_string());
    assert_eq!(SymmetricRatchet::from_state(&bad).err(), Some(CryptoError::InvalidKeyLen(3)));
    bad.sending_chain_key = Some("@@".to_string());
    assert_eq!(SymmetricRatchet::from_state(&bad).err(), Some(CryptoError::Base64));
}
