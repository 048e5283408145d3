use ren_sdk::bundle::{default_true, OneTimePreKey, PreKeyBundle, PreKeyBundleResponse, UploadPreKeysRequest};
use ren_sdk::crypto::{generate_key_pair, generate_identity_key_pair, sign_public_key};
use ren_sdk::error::CryptoError;
use ren_sdk::identity::IdentityKeyStore;
use ren_sdk::protocol::{x3dh_initiate, x3dh_initiate_verified, x3dh_respond, x3dh_respond_with_otk, SharedSecret};

#[test]
fn test_prekey_bundle_creation() {
    let bundle = PreKeyBundle::new(
        123,
        "identity_key".to_string(),
        "signed_prekey".to_string(),
        "signature".to_string(),
        Some("one_time_prekey".to_string()),
        Some(42),
    );

    assert_eq!(bundle.user_id, 123);
    assert_eq!(bundle.identity_key, "identity_key");
    assert_eq!(bundle.signed_prekey, "signed_prekey");
    assert_eq!(bundle.signed_prekey_signature, "signature");
    assert!(bundle.has_one_time_prekey());
    assert!(bundle.is_valid());
}

#[test]
fn test_prekey_bundle_without_otk() {
    let bundle = PreKeyBundle::without_one_time_prekey(
        123,
        "identity_key".to_string(),
        "signed_prekey".to_string(),
        "signature".to_string(),
    );

    assert!(!bundle.has_one_time_prekey());
    assert!(bundle.is_valid());
}

#[test]
fn test_prekey_bundle_invalid() {
    let bundle = PreKeyBundle::new(
        123,
        "".to_string(),
        "signed_prekey".to_string(),
        "signature".to_string(),
        None,
        None,
    );

    assert!(!bundle.is_valid());
}

#[test]
fn test_one_time_prekey_generation() {
    let otk = OneTimePreKey::generate(1).unwrap();

    assert_eq!(otk.prekey_id, 1);
    assert!(!otk.prekey.is_empty());
    assert_eq!(otk.prekey.len(), 44);
}

#[test]
fn bundle_response_and_upload_request() {
    let bundle = PreKeyBundle::without_one_time_prekey(1, "a".to_string(), "b".to_string(), "c".to_string());
    let resp = PreKeyBundleResponse::new(bundle.clone());
    assert_eq!(resp.bundle, bundle);
    assert!(resp.signed_prekey_signature_valid);
    assert!(default_true());
    let req = UploadPreKeysRequest::new(vec![OneTimePreKey::new(5, "k".to_string())]);
    assert_eq!(req.prekeys.len(), 1);
    assert_eq!(req.prekeys[0].prekey_id, 5);
}

#[test]
fn test_generate_identity_key_store() {
    let identity = IdentityKeyStore::generate();
    assert!(identity.is_ok());

    let identity = identity.unwrap();
    assert!(!identity.identity_keypair.public_key.is_empty());
    assert!(!identity.identity_keypair.private_key.is_empty());
    assert!(!identity.identity_signature_key.public_key.is_empty());
    assert!(!identity.identity_signature_key.private_key.is_empty());
    assert!(!identity.signed_prekey.public_key.is_empty());
    assert_eq!(identity.key_version, 1);
}

#[test]
fn test_sign_prekey() {
    let identity = IdentityKeyStore::generate().unwrap();
    let signed = identity.sign_current_prekey();
    assert!(signed.is_ok());

    let signed = signed.unwrap();
    assert_eq!(signed.public_key, identity.signed_prekey.public_key);
    assert_eq!(signed.key_version, identity.key_version);
    assert!(!signed.signature.is_empty());
}

#[test]
fn test_rotate_signed_prekey() {
    let mut identity = IdentityKeyStore::generate().unwrap();
    let old_prekey = identity.signed_prekey.public_key.clone();
    let old_version = identity.key_version;

    let result = identity.rotate_signed_prekey();
    assert!(result.is_ok());

    assert_ne!(identity.signed_prekey.public_key, old_prekey);
    assert_eq!(identity.key_version, old_version + 1);
}

#[test]
fn identity_store_getters_and_signing() {
    let store = IdentityKeyStore::generate().unwrap();
    assert_eq!(store.get_public_identity(), store.identity_keypair.public_key);
    assert_eq!(store.get_public_signature_key(), store.identity_signature_key.public_key);
    let other = generate_key_pair(false);
    let signed = store.sign_prekey(&other.public_key, 9).unwrap();
    assert_eq!(signed.key_version, 9);
    assert!(ren_sdk::crypto::verify_signed_public_key(&signed, store.get_public_signature_key()).unwrap());
    let copy = IdentityKeyStore::from_keys(
        store.identity_keypair.clone(),
        store.identity_signature_key.clone(),
        store.signed_prekey.clone(),
        3,
    );
    assert_eq!(copy.key_version, 3);
}

#[test]
fn test_x3dh_full_exchange_with_otk() {
    let alice_identity = IdentityKeyStore::generate().unwrap();
    let bob_identity = IdentityKeyStore::generate().unwrap();

    let bob_otk = generate_key_pair(false);

    let bob_signed = bob_identity.sign_current_prekey().unwrap();
    let bob_bundle = PreKeyBundle::new(
        2,
        bob_identity.identity_keypair.public_key.clone(),
        bob_identity.signed_prekey.public_key.clone(),
        bob_signed.signature,
        Some(bob_otk.public_key.clone()),
        Some(1),
    );

    let alice_ephemeral = generate_key_pair(false);

    let alice_sk = x3dh_initiate(&alice_identity.identity_keypair.private_key, &alice_ephemeral, &bob_bundle).unwrap();

    let bob_sk = x3dh_respond_with_otk(
        &bob_identity.identity_keypair.private_key,
        &bob_identity.signed_prekey.private_key,
        Some(&bob_otk.private_key),
        &alice_identity.identity_keypair.public_key,
        &alice_ephemeral.public_key,
    )
    .unwrap();

    assert_eq!(alice_sk.bytes, bob_sk.bytes);
}

#[test]
fn test_x3dh_without_otk() {
    let alice_identity = IdentityKeyStore::generate().unwrap();
    let bob_identity = IdentityKeyStore::generate().unwrap();

    let bob_signed = bob_identity.sign_current_prekey().unwrap();
    let bob_bundle = PreKeyBundle::without_one_time_prekey(
        2,
        bob_identity.identity_keypair.public_key.clone(),
        bob_identity.signed_prekey.public_key.clone(),
        bob_signed.signature,
    );

    let alice_ephemeral = generate_key_pair(false);

    let alice_sk = x3dh_initiate(&alice_identity.identity_keypair.private_key, &alice_ephemeral, &bob_bundle).unwrap();

    let bob_sk = x3dh_respond(
        &bob_identity.identity_keypair.private_key,
        &bob_identity.signed_prekey.private_key,
        &alice_identity.identity_keypair.public_key,
        &alice_ephemeral.public_key,
    )
    .unwrap();

    assert_eq!(alice_sk.bytes, bob_sk.bytes);
}

#[test]
fn x3dh_with_and_without_otk_differ() {
    let alice = IdentityKeyStore::generate().unwrap();
    let bob = IdentityKeyStore::generate().unwrap();
    let otk = generate_key_pair(false);
    let eph = generate_key_pair(false);
    let with = x3dh_respond_with_otk(
        &bob.identity_keypair.private_key,
        &bob.signed_prekey.private_key,
        Some(&otk.private_key),
        &alice.identity_keypair.public_key,
        &eph.public_key,
    )
    .unwrap();
    let without = x3dh_respond_with_otk(
        &bob.identity_keypair.private_key,
        &bob.signed_prekey.private_key,
        None,
        &alice.identity_keypair.public_key,
        &eph.public_key,
    )
    .unwrap();
    assert_ne!(with.bytes, without.bytes);
}

#[test]
fn x3dh_verified_checks_signature() {
    let alice = IdentityKeyStore::generate().unwrap();
    let bob = IdentityKeyStore::generate().unwrap();
    let signed = bob.sign_current_prekey().unwrap();
    let bundle = PreKeyBundle::without_one_time_prekey(
        2,
        bob.identity_keypair.public_key.clone(),
        bob.signed_prekey.public_key.clone(),
        signed.signature.clone(),
    );
    let eph = generate_key_pair(false);
    let good = x3dh_initiate_verified(
        &alice.identity_keypair.private_key,
        &eph,
        &bundle,
        bob.get_public_signature_key(),
        bob.key_version,
    )
    .unwrap();
    let plain = x3dh_initiate(&alice.identity_keypair.private_key, &eph, &bundle).unwrap();
    assert_eq!(good.bytes, plain.bytes);
    let bad = x3dh_initiate_verified(
        &alice.identity_keypair.private_key,
        &eph,
        &bundle,
        bob.get_public_signature_key(),
        bob.key_version + 1,
    );
    assert_eq!(bad.err().map(|e| e), Some(CryptoError::Signature));
}

#[test]
fn x3dh_bad_key_lengths() {
    let eph = generate_key_pair(false);
    let bundle = PreKeyBundle::without_one_time_prekey(1, "AAAA".to_string(), "AAAA".to_string(), String::new());
    let r = x3dh_initiate(&eph.private_key, &eph, &bundle);
    assert_eq!(r.err().map(|e| e), Some(CryptoError::InvalidKeyLen(3)));
}

#[test]
fn test_shared_secret_operations() {
    let secret = SharedSecret::new([1u8; 32]);

    assert_eq!(secret.as_bytes(), &[1u8; 32]);
    assert_eq!(secret.to_vec(), vec![1u8; 32]);
    assert_eq!(secret.to_vec().len(), 32);
}

#[test]
fn signature_verifies_and_version_change_breaks_it() {
    let id = generate_identity_key_pair().unwrap();
    let x = generate_key_pair(false);
    let mut signed = sign_public_key(&x.public_key, &id.private_key, 7).unwrap();
    assert_eq!(signed.key_version, 7);
    assert!(ren_sdk::crypto::verify_signed_public_key(&signed, &id.public_key).unwrap());
    signed.key_version = 8;
    assert!(!ren_sdk::crypto::verify_signed_public_key(&signed, &id.public_key).unwrap());
}

#[test]
fn signature_public_key_change_breaks_it() {
    let id = generate_identity_key_pair().unwrap();
    let x = generate_key_pair(false);
    let y = generate_key_pair(false);
    let mut signed = sign_public_key(&x.public_key, &id.private_key, 1).unwrap();
    signed.public_key = y.public_key.clone();
    assert!(!ren_sdk::crypto::verify_signed_public_key(&signed, &id.public_key).unwrap());
}

#[test]
fn signature_errors() {
    let id = generate_identity_key_pair().unwrap();
    let other = generate_identity_key_pair().unwrap();
    let x = generate_key_pair(false);
    assert_eq!(sign_public_key(&x.public_key, "AAAA", 1).err(), Some(CryptoError::InvalidKeyLen(3)));
    assert_eq!(sign_public_key(&x.public_key, "%%", 1).err(), Some(CryptoError::Base64));
    // seed of one pair with the public key of another
    let a = base64::Engine::decode(&base64::engine::general_purpose::STANDARD, &id.private_key).unwrap();
    let b = base64::Engine::decode(&base64::engine::general_purpose::STANDARD, &other.private_key).unwrap();
    let mut mixed = a[..32].to_vec();
    mixed.extend_from_slice(&b[32..]);
    let mixed = base64::Engine::encode(&base64::engine::general_purpose::STANDARD, &mixed);
    assert_eq!(sign_public_key(&x.public_key, &mixed, 1).err(), Some(CryptoError::Signature));
    let signed = sign_public_key(&x.public_key, &id.private_key, 1).unwrap();
    assert_eq!(ren_sdk::crypto::verify_signed_public_key(&signed, "AAAA").err(), Some(CryptoError::InvalidKeyLen(3)));
    assert!(ren_sdk::crypto::import_identity_public_key(&id.public_key).is_ok());
    assert_eq!(ren_sdk::crypto::import_identity_public_key("AAAA").err(), Some(CryptoError::InvalidKeyLen(3)));
}

#[test]
fn x3dh_signature_size_is_checked() {
    let alice = IdentityKeyStore::generate().unwrap();
    let bob = IdentityKeyStore::generate().unwrap();
    let eph = generate_key_pair(false);
    let short_sig = base64::Engine::encode(&base64::engine::general_purpose::STANDARD, [1u8; 10]);
    let bundle = PreKeyBundle::without_one_time_prekey(
        2,
        bob.identity_keypair.public_key.clone(),
        bob.signed_prekey.public_key.clone(),
        short_sig,
    );
    let r = x3dh_initiate(&alice.identity_keypair.private_key, &eph, &bundle);
    assert_eq!(r.err().map(|e| e), Some(CryptoError::InvalidKeyLen(10)));
    let mut bad = bundle.clone();
    bad.signed_prekey_signature = "!!".to_string();
    let r = x3dh_initiate(&alice.identity_keypair.private_key, &eph, &bad);
    assert_eq!(r.err().map(|e| e), Some(CryptoError::Base64));
}

#[test]
fn key_text_lengths() {
    let store = IdentityKeyStore::generate().unwrap();
    assert_eq!(store.identity_keypair.public_key.len(), 44);
    assert_eq!(store.identity_signature_key.public_key.len(), 44);
    assert_eq!(store.identity_signature_key.private_key.len(), 88);
    assert_eq!(store.sign_current_prekey().unwrap().signature.len(), 88);
}
