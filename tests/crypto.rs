use ren_sdk::crypto::{
    decrypt_data, decrypt_file, decrypt_file_raw, decrypt_file_with_message, decrypt_message,
    derive_key_from_password, derive_key_from_string, derive_recovery_key_argon2id_with_config, encrypt_data,
    encrypt_file, encrypt_file_raw, encrypt_file_with_message, encrypt_message, export_private_key_b64,
    export_public_key_b64, generate_key_pair, generate_message_encryption_key, generate_nonce,
    generate_recovery_salt, generate_salt, import_private_key_b64, import_public_key_b64, unwrap_symmetric_key,
    validate_recovery_entropy, wrap_symmetric_key,
};
use ren_sdk::error::CryptoError;
use ren_sdk::types::{AeadKey, Argon2Config};

fn b64d(s: &str) -> Vec<u8> {
    base64::Engine::decode(&base64::engine::general_purpose::STANDARD, s).unwrap()
}

fn b64e(b: &[u8]) -> String {
    base64::Engine::encode(&base64::engine::general_purpose::STANDARD, b)
}

fn hex(b: &[u8]) -> String {
    b.iter().map(|x| format!("{:02x}", x)).collect()
}

#[test]
fn aead_hello_round_trip_and_tamper() {
    let key = AeadKey([0u8; 32]);
    let ct = encrypt_data("hello", &key).unwrap();
    assert_eq!(decrypt_data(&ct, &key).unwrap(), "hello");
    let mut raw = b64d(&ct);
    assert_eq!(raw.len(), 12 + 5 + 16);
    let last = raw.len() - 1;
    raw[last] ^= 0x01;
    assert_eq!(decrypt_data(&b64e(&raw), &key).err(), Some(CryptoError::Aead));
}

#[test]
fn aead_nonce_tamper_and_wrong_key() {
    let key = generate_message_encryption_key();
    let ct = encrypt_data("some text", &key).unwrap();
    let mut raw = b64d(&ct);
    raw[0] ^= 0x80;
    assert_eq!(decrypt_data(&b64e(&raw), &key).err(), Some(CryptoError::Aead));
    let other = AeadKey([1u8; 32]);
    assert_eq!(decrypt_data(&ct, &other).err(), Some(CryptoError::Aead));
    assert_eq!(decrypt_data(&b64e(&[0u8; 11]), &key).err(), Some(CryptoError::Aead));
    assert_eq!(decrypt_data("***", &key).err(), Some(CryptoError::Base64));
}

#[test]
fn aead_round_trip_empty_and_unicode() {
    let key = AeadKey([9u8; 32]);
    for text in ["", "привет", "a longer message with spaces"] {
        let ct = encrypt_data(text, &key).unwrap();
        assert_eq!(decrypt_data(&ct, &key).unwrap(), text);
    }
}

#[test]
fn message_round_trip() {
    let key = generate_message_encryption_key();
    let m = encrypt_message("hi there", &key).unwrap();
    assert_eq!(b64d(&m.nonce).len(), 12);
    assert_eq!(decrypt_message(&m.ciphertext, &m.nonce, &key).unwrap(), "hi there");
    assert_eq!(decrypt_message(&m.ciphertext, "AAAA", &key).err(), Some(CryptoError::InvalidKeyLen(3)));
}

#[test]
fn file_round_trips() {
    let key = generate_message_encryption_key();
    let data = vec![1u8, 2, 3, 4, 5, 250];
    let f = encrypt_file(&data, "a.bin", "application/octet-stream", &key).unwrap();
    assert_eq!(f.filename, "a.bin");
    assert_eq!(f.mimetype, "application/octet-stream");
    assert_eq!(decrypt_file(&f.ciphertext, &f.nonce, &key).unwrap(), data);

    let (raw, nonce) = encrypt_file_raw(&data, &key).unwrap();
    assert_eq!(raw.len(), data.len() + 16);
    assert_eq!(decrypt_file_raw(&raw, &nonce, &key).unwrap(), data);

    let fm = encrypt_file_with_message(&data, "caption", &key, "b.png", "image/png").unwrap();
    let d = decrypt_file_with_message(&fm.enc_file, &fm.ciphertext, &fm.nonce, &key, "b.png", "image/png").unwrap();
    assert_eq!(d.file, data);
    assert_eq!(d.message, "caption");
    assert_eq!(d.filename, "b.png");
    assert_eq!(d.mimetype, "image/png");
}

#[test]
fn key_wrap_round_trip() {
    let receiver = generate_key_pair(false);
    let key = generate_message_encryption_key();
    let (wrapped, eph, nonce) = wrap_symmetric_key(&key, &receiver.public_key).unwrap();
    assert_eq!(b64d(&nonce).len(), 12);
    assert_eq!(b64d(&eph).len(), 32);
    assert_eq!(b64d(&wrapped).len(), 48);
    assert_ne!(b64d(&wrapped)[..32], key.to_bytes()[..]);
    let back = unwrap_symmetric_key(&wrapped, &eph, &nonce, &receiver.private_key).unwrap();
    assert_eq!(back.to_bytes(), key.to_bytes());

    let stranger = generate_key_pair(false);
    assert_eq!(unwrap_symmetric_key(&wrapped, &eph, &nonce, &stranger.private_key).err(), Some(CryptoError::Aead));
    assert_eq!(wrap_symmetric_key(&key, "AAAA").err(), Some(CryptoError::InvalidKeyLen(3)));
    assert_eq!(wrap_symmetric_key(&key, "!").err(), Some(CryptoError::Base64));
}

#[test]
fn key_import_export() {
    let pair = generate_key_pair(false);
    let pk = import_public_key_b64(&pair.public_key).unwrap();
    let sk = import_private_key_b64(&pair.private_key).unwrap();
    assert_eq!(export_public_key_b64(&pk), pair.public_key);
    assert_eq!(export_private_key_b64(&sk), pair.private_key);
    assert_eq!(pair.public_key.len(), 44);
    assert_eq!(import_public_key_b64("AAAA").err(), Some(CryptoError::InvalidKeyLen(3)));
    assert_eq!(import_private_key_b64("#").err(), Some(CryptoError::Base64));
}

#[test]
fn aead_key_from_bytes() {
    assert_eq!(AeadKey::from_bytes(&[7u8; 32]).unwrap().to_bytes(), [7u8; 32]);
    assert_eq!(AeadKey::from_bytes(&[7u8; 31]).err().map(|e| e), Some(CryptoError::InvalidKeyLen(31)));
}

#[test]
fn nonce_and_salt_sizes() {
    assert_eq!(b64d(&generate_nonce()).len(), 12);
    assert_eq!(b64d(&generate_salt()).len(), 16);
    assert_eq!(b64d(&generate_recovery_salt(4).unwrap()).len(), 16);
    assert_eq!(b64d(&generate_recovery_salt(24).unwrap()).len(), 24);
}

#[test]
fn key_from_string_is_sha256() {
    let k = derive_key_from_string("hello").unwrap();
    assert_eq!(hex(&k.to_bytes()), "2cf24dba5fb0a30e26e83b2ac5b9e29e1b161e5c1fa7425e73043362938b9824");
}

#[test]
fn key_from_password_is_pbkdf2() {
    let k = derive_key_from_password("password", &b64e(&[0u8; 16])).unwrap();
    assert_eq!(hex(&k.to_bytes()), "251f8a288adbd397631627dbaf9fc2cf11bf027e4e36cc88ed51e5237b7e4a98");
    assert_eq!(derive_key_from_password("password", "").err(), Some(CryptoError::InvalidKeyLen(0)));
    assert_eq!(derive_key_from_password("password", "?").err(), Some(CryptoError::Base64));
}

#[test]
fn argon2_parameter_checks() {
    let salt = b64e(&[5u8; 16]);
    let small = Argon2Config { memory_kib: 8, iterations: 1, parallelism: 1 };
    let a = derive_recovery_key_argon2id_with_config("secret words", &salt, &small).unwrap();
    let b = derive_recovery_key_argon2id_with_config("secret words", &salt, &small).unwrap();
    assert_eq!(a.to_bytes(), b.to_bytes());
    let c = derive_recovery_key_argon2id_with_config("other words", &salt, &small).unwrap();
    assert_ne!(a.to_bytes(), c.to_bytes());

    let short = b64e(&[5u8; 15]);
    assert_eq!(derive_recovery_key_argon2id_with_config("s", &short, &small).err(), Some(CryptoError::InvalidKeyLen(15)));
    let bad_mem = Argon2Config { memory_kib: 7, iterations: 1, parallelism: 1 };
    assert_eq!(derive_recovery_key_argon2id_with_config("s", &salt, &bad_mem).err(), Some(CryptoError::Argon2));
    let bad_iter = Argon2Config { memory_kib: 8, iterations: 0, parallelism: 1 };
    assert_eq!(derive_recovery_key_argon2id_with_config("s", &salt, &bad_iter).err(), Some(CryptoError::Argon2));
    let bad_par = Argon2Config { memory_kib: 8, iterations: 1, parallelism: 0 };
    assert_eq!(derive_recovery_key_argon2id_with_config("s", &salt, &bad_par).err(), Some(CryptoError::Argon2));
    let lanes = Argon2Config { memory_kib: 8, iterations: 1, parallelism: 2 };
    assert_eq!(derive_recovery_key_argon2id_with_config("s", &salt, &lanes).err(), Some(CryptoError::Argon2));
    let d = Argon2Config::default();
    assert_eq!((d.memory_kib, d.iterations, d.parallelism), (65536, 3, 4));
}

#[test]
fn recovery_entropy_rules() {
    let twelve = "one two three four five six seven eight nine ten eleven twelve";
    assert_eq!(validate_recovery_entropy(twelve), Ok(true));
    assert_eq!(validate_recovery_entropy("one two three four five six seven eight nine ten eleven"), Ok(false));
    assert_eq!(validate_recovery_entropy("  QUJDREVGR0hJSktMTU5PUA==  "), Ok(true));
    assert_eq!(validate_recovery_entropy("abcdefghij0123456789"), Ok(true));
    assert_eq!(validate_recovery_entropy("abcdefghij012345678"), Ok(false));
    assert_eq!(validate_recovery_entropy("abcdefghij0123456789+"), Ok(false));
    assert_eq!(validate_recovery_entropy("abcdefghij0123456789+/"), Ok(true));
    assert_eq!(validate_recovery_entropy("abcdefghij 0123456789 abc"), Ok(false));
    assert_eq!(validate_recovery_entropy(""), Ok(false));
    assert_eq!(validate_recovery_entropy("   \t\n "), Ok(false));
    assert_eq!(validate_recovery_entropy("ééééééééééééééééééééééé"), Ok(false));
}
