use ren_sdk::bundle::PreKeyBundle;
use ren_sdk::crypto::generate_key_pair;
use ren_sdk::error::CryptoError;
use ren_sdk::identity::IdentityKeyStore;
use ren_sdk::protocol::{x3dh_initiate, x3dh_respond_with_otk, SharedSecret};
use ren_sdk::session::{RatchetMessage, RatchetSession, SESSION_STATE_VERSION};

#[test]
fn test_ratchet_session_creation() {
    let alice_identity = IdentityKeyStore::generate().unwrap();
    let bob_identity = IdentityKeyStore::generate().unwrap();
    let bob_otk = generate_key_pair(false);

    let bob_signed = bob_identity.sign_current_prekey().unwrap();
    let bob_bundle = PreKeyBundle::new(
        2,
        bob_identity.identity_keypair.public_key.clone(),
        bob_identity.signed_prekey.public_key.clone(),
        bob_signed.signature,
        Some(bob_otk.public_key.clone()),
        Some(1),
    );

    let alice_ephemeral = generate_key_pair(false);

    let alice_sk = x3dh_initiate(
        &alice_identity.identity_keypair.private_key,
        &alice_ephemeral,
        &bob_bundle,
    )
    .unwrap();

    let _bob_sk = x3dh_respond_with_otk(
        &bob_identity.identity_keypair.private_key,
        &bob_identity.signed_prekey.private_key,
        Some(&bob_otk.private_key),
        &alice_identity.identity_keypair.public_key,
        &alice_ephemeral.public_key,
    )
    .unwrap();

    let alice_session = RatchetSession::initiate(
        &alice_sk,
        alice_identity.identity_keypair.clone(),
        bob_identity.identity_keypair.clone(),
    );

    assert!(alice_session.is_ok());
    assert!(!alice_session.unwrap().session_id().is_empty());
}

#[test]
fn test_message_encryption_decryption() {
    let shared_secret = SharedSecret::new([42u8; 32]);
    let alice_identity = generate_key_pair(false);
    let bob_identity = generate_key_pair(false);

    let mut alice_session =
        RatchetSession::initiate(&shared_secret, alice_identity.clone(), bob_identity.clone()).unwrap();

    let mut bob_session = RatchetSession::respond(
        &shared_secret,
        bob_identity.clone(),
        alice_identity.clone(),
        alice_identity,
    )
    .unwrap();

    let plaintext = b"Hello!";
    let encrypted = alice_session.encrypt_message(plaintext).unwrap();

    let decrypted = bob_session.decrypt_message(&encrypted).unwrap();

    assert_eq!(plaintext, &decrypted[..]);
}

#[test]
fn test_full_message_exchange_cycle() {
    let shared_secret = SharedSecret::new([123u8; 32]);
    let alice_identity = generate_key_pair(false);
    let bob_identity = generate_key_pair(false);

    let mut alice_session =
        RatchetSession::initiate(&shared_secret, alice_identity.clone(), bob_identity.clone()).unwrap();

    let mut bob_session = RatchetSession::respond(
        &shared_secret,
        bob_identity.clone(),
        alice_identity.clone(),
        alice_identity,
    )
    .unwrap();

    let msg1 = b"Hello Bob!";
    let enc1 = alice_session.encrypt_message(msg1).unwrap();
    let dec1 = bob_session.decrypt_message(&enc1).unwrap();
    assert_eq!(msg1, &dec1[..]);

    let msg2 = b"Second message!";
    let enc2 = alice_session.encrypt_message(msg2).unwrap();
    let dec2 = bob_session.decrypt_message(&enc2).unwrap();
    assert_eq!(msg2, &dec2[..]);

    let msg3 = b"Third message!";
    let enc3 = alice_session.encrypt_message(msg3).unwrap();
    let dec3 = bob_session.decrypt_message(&enc3).unwrap();
    assert_eq!(msg3, &dec3[..]);
}

#[test]
fn test_multiple_messages_same_chain() {
    let shared_secret = SharedSecret::new([99u8; 32]);
    let alice_identity = generate_key_pair(false);
    let bob_identity = generate_key_pair(false);

    let mut alice_session =
        RatchetSession::initiate(&shared_secret, alice_identity.clone(), bob_identity.clone()).unwrap();

    let mut bob_session = RatchetSession::respond(
        &shared_secret,
        bob_identity.clone(),
        alice_identity.clone(),
        alice_identity,
    )
    .unwrap();

    for i in 0..5 {
        let msg = format!("Message {}", i);
        let enc = alice_session.encrypt_message(msg.as_bytes()).unwrap();
        let dec = bob_session.decrypt_message(&enc).unwrap();
        assert_eq!(msg.as_bytes(), &dec[..]);
    }
}

#[test]
fn test_x3dh_with_ratchet_integration() {
    let alice_identity_store = IdentityKeyStore::generate().unwrap();
    let bob_identity_store = IdentityKeyStore::generate().unwrap();

    let bob_otk = generate_key_pair(false);

    let bob_signed = bob_identity_store.sign_current_prekey().unwrap();
    let bob_bundle = PreKeyBundle::new(
        2,
        bob_identity_store.identity_keypair.public_key.clone(),
        bob_identity_store.signed_prekey.public_key.clone(),
        bob_signed.signature,
        Some(bob_otk.public_key.clone()),
        Some(1),
    );

    let alice_ephemeral = generate_key_pair(false);

    let alice_sk = x3dh_initiate(
        &alice_identity_store.identity_keypair.private_key,
        &alice_ephemeral,
        &bob_bundle,
    )
    .unwrap();

    let bob_sk = x3dh_respond_with_otk(
        &bob_identity_store.identity_keypair.private_key,
        &bob_identity_store.signed_prekey.private_key,
        Some(&bob_otk.private_key),
        &alice_identity_store.identity_keypair.public_key,
        &alice_ephemeral.public_key,
    )
    .unwrap();

    assert_eq!(alice_sk.bytes, bob_sk.bytes);

    let mut alice_session = RatchetSession::initiate(
        &alice_sk,
        alice_identity_store.identity_keypair.clone(),
        bob_identity_store.identity_keypair.clone(),
    )
    .unwrap();

    let mut bob_session = RatchetSession::respond(
        &bob_sk,
        bob_identity_store.identity_keypair.clone(),
        alice_identity_store.identity_keypair.clone(),
        alice_ephemeral,
    )
    .unwrap();

    let msg1 = b"Hello from Alice!";
    let enc1 = alice_session.encrypt_message(msg1).unwrap();
    let dec1 = bob_session.decrypt_message(&enc1).unwrap();
    assert_eq!(msg1, &dec1[..]);

    let msg2 = b"Second message!";
    let enc2 = alice_session.encrypt_message(msg2).unwrap();
    let dec2 = bob_session.decrypt_message(&enc2).unwrap();
    assert_eq!(msg2, &dec2[..]);
}

fn paired(secret: u8) -> (RatchetSession, RatchetSession) {
    let shared_secret = SharedSecret::new([secret; 32]);
    let alice_identity = generate_key_pair(false);
    let bob_identity = generate_key_pair(false);
    let alice = RatchetSession::initiate(&shared_secret, alice_identity.clone(), bob_identity.clone()).unwrap();
    let bob = RatchetSession::respond(&shared_secret, bob_identity, alice_identity.clone(), alice_identity).unwrap();
    (alice, bob)
}

#[test]
fn ratchet_one_way_hello() {
    let (mut alice, mut bob) = paired(0x2A);
    let enc = alice.encrypt_message(b"Hello!").unwrap();
    assert_eq!(enc.counter, 0);
    assert_eq!(bob.decrypt_message(&enc).unwrap(), b"Hello!".to_vec());
}

#[test]
fn ratchet_five_messages_in_order() {
    let (mut alice, mut bob) = paired(0x2A);
    for i in 0..5 {
        let msg = format!("Message {}", i);
        let enc = alice.encrypt_message(msg.as_bytes()).unwrap();
        assert_eq!(enc.counter, i as u32);
        assert_eq!(bob.decrypt_message(&enc).unwrap(), msg.as_bytes().to_vec());
    }
}

#[test]
fn ratchet_out_of_order_delivery() {
    let (mut alice, mut bob) = paired(0x63);
    let e1 = alice.encrypt_message(b"First").unwrap();
    let e2 = alice.encrypt_message(b"Second").unwrap();
    let e3 = alice.encrypt_message(b"Third").unwrap();
    assert_eq!(bob.decrypt_message(&e1).unwrap(), b"First".to_vec());
    assert_eq!(bob.decrypt_message(&e3).unwrap(), b"Third".to_vec());
    assert_eq!(bob.ratchet.skipped_keys.len(), 1);
    assert_eq!(bob.decrypt_message(&e2).unwrap(), b"Second".to_vec());
    assert_eq!(bob.ratchet.skipped_keys.len(), 0);
}

#[test]
fn ratchet_replay_is_refused_and_state_kept() {
    let (mut alice, mut bob) = paired(7);
    let e1 = alice.encrypt_message(b"once").unwrap();
    bob.decrypt_message(&e1).unwrap();
    let before = bob.session_state();
    assert_eq!(bob.decrypt_message(&e1).unwrap_err(), CryptoError::OldMessage);
    let after = bob.session_state();
    assert_eq!(before.root_key, after.root_key);
    assert_eq!(before.ratchet.receiving_counter, after.ratchet.receiving_counter);
    assert_eq!(before.ratchet.received_message_count, after.ratchet.received_message_count);
}

#[test]
fn ratchet_tampered_message_fails_without_advancing() {
    let (mut alice, mut bob) = paired(8);
    let e1 = alice.encrypt_message(b"payload").unwrap();
    let mut tampered = e1.clone();
    let mut raw = base64::Engine::decode(&base64::engine::general_purpose::STANDARD, &tampered.ciphertext).unwrap();
    let last = raw.len() - 1;
    raw[last] ^= 1;
    tampered.ciphertext = base64::Engine::encode(&base64::engine::general_purpose::STANDARD, &raw);
    assert_eq!(bob.decrypt_message(&tampered).unwrap_err(), CryptoError::Aead);
    assert_eq!(bob.ratchet.received_message_count, 0);
    assert!(bob.ratchet.receiving_chain.is_none());
    assert_eq!(bob.decrypt_message(&e1).unwrap(), b"payload".to_vec());
}

#[test]
fn ratchet_skip_limit() {
    let (mut alice, mut bob) = paired(9);
    let e = alice.encrypt_message(b"x").unwrap();
    let far = RatchetMessage { ephemeral_key: e.ephemeral_key.clone(), ciphertext: e.ciphertext.clone(), counter: 1001 };
    assert_eq!(bob.decrypt_message(&far).unwrap_err(), CryptoError::SkipLimitExceeded);
    assert_eq!(bob.decrypt_message(&e).unwrap(), b"x".to_vec());
}

#[test]
fn ratchet_bad_ephemeral_key() {
    let (_alice, mut bob) = paired(10);
    let m = RatchetMessage { ephemeral_key: "not base64!".to_string(), ciphertext: String::new(), counter: 0 };
    assert_eq!(bob.decrypt_message(&m).unwrap_err(), CryptoError::Base64);
    let m = RatchetMessage { ephemeral_key: "AAAA".to_string(), ciphertext: String::new(), counter: 0 };
    assert_eq!(bob.decrypt_message(&m).unwrap_err(), CryptoError::InvalidKeyLen(3));
}

#[test]
fn ratchet_state_round_trip() {
    let (mut alice, mut bob) = paired(11);
    let e1 = alice.encrypt_message(b"one").unwrap();
    let e2 = alice.encrypt_message(b"two").unwrap();
    let e3 = alice.encrypt_message(b"three").unwrap();
    bob.decrypt_message(&e1).unwrap();
    bob.decrypt_message(&e3).unwrap();

    let state = bob.session_state();
    assert_eq!(state.version, SESSION_STATE_VERSION);
    let mut restored = RatchetSession::from_state(&state).unwrap();
    assert_eq!(restored.session_id(), bob.session_id());
    assert_eq!(restored.session_state().root_key, state.root_key);
    assert_eq!(restored.decrypt_message(&e2).unwrap(), b"two".to_vec());

    let alice_state = alice.session_state();
    let mut alice_back = RatchetSession::from_state(&alice_state).unwrap();
    let e4 = alice_back.encrypt_message(b"four").unwrap();
    assert_eq!(e4.counter, 3);
    assert_eq!(restored.decrypt_message(&e4).unwrap(), b"four".to_vec());
}

#[test]
fn ratchet_with_state_steps() {
    let (alice, bob) = paired(12);
    let (alice_state, m) = RatchetSession::encrypt_message_with_state(&alice.session_state(), b"hi").unwrap();
    assert_eq!(alice_state.ratchet.sent_message_count, 1);
    let (bob_state, p) = RatchetSession::decrypt_message_with_state(&bob.session_state(), &m).unwrap();
    assert_eq!(p, b"hi".to_vec());
    assert_eq!(bob_state.ratchet.received_message_count, 1);

    let mut old = bob.session_state();
    old.version = 2;
    assert_eq!(RatchetSession::from_state(&old).err(), Some(CryptoError::UnsupportedVersion(2)));
}

#[test]
fn session_id_and_message_sizes() {
    let (mut alice, _bob) = paired(13);
    assert_eq!(alice.session_id().len(), 24);
    let raw_id = base64::Engine::decode(&base64::engine::general_purpose::STANDARD, alice.session_id()).unwrap();
    assert_eq!(raw_id.len(), 16);
    let m = alice.encrypt_message(b"seven b").unwrap();
    let ct = base64::Engine::decode(&base64::engine::general_purpose::STANDARD, &m.ciphertext).unwrap();
    assert_eq!(ct.len(), 12 + 7 + 16);
    let eph = base64::Engine::decode(&base64::engine::general_purpose::STANDARD, &m.ephemeral_key).unwrap();
    assert_eq!(eph.len(), 32);
}

#[test]
fn restore_refuses_short_keys() {
    let (alice, _bob) = paired(14);
    let mut st = alice.session_state();
    st.root_key = "AAAA".to_string();
    assert_eq!(RatchetSession::from_state(&st).err(), Some(CryptoError::InvalidKeyLen(3)));
    let mut st = alice.session_state();
    st.ratchet.receiving_chain_key = Some("AAAAAA==".to_string());
    assert_eq!(RatchetSession::from_state(&st).err(), Some(CryptoError::InvalidKeyLen(4)));
}

#[test]
fn with_state_failure_keeps_error() {
    let (_alice, bob) = paired(15);
    let m = RatchetMessage { ephemeral_key: "AAAA".to_string(), ciphertext: String::new(), counter: 0 };
    assert_eq!(RatchetSession::decrypt_message_with_state(&bob.session_state(), &m).err(), Some(CryptoError::InvalidKeyLen(3)));
}
