//! The outside cryptographic building blocks, each behind one trusted item.
//!
//! Every result that only an outside crate can compute gets a name (an
//! uninterpreted spec function); the wrappers below state that their results
//! are those names applied to their arguments, plus the few facts that the
//! crates document.
use vstd::prelude::*;

verus! {

/// Padded standard base64 text of `bytes`.
pub uninterp spec fn b64_encode_of(bytes: Seq<u8>) -> Seq<char>;

/// What standard padded base64 decoding gives for `text`, if it is valid.
pub uninterp spec fn b64_decode_of(text: Seq<char>) -> Option<Seq<u8>>;

/// The X25519 public key of a 32-byte secret scalar.
pub uninterp spec fn x25519_public_of(secret: Seq<u8>) -> Seq<u8>;

/// The X25519 shared secret of a secret scalar and a public key.
pub uninterp spec fn x25519_dh_of(secret: Seq<u8>, public: Seq<u8>) -> Seq<u8>;

/// HKDF-SHA256 with an empty salt: `len` bytes of output keying material.
pub uninterp spec fn hkdf_sha256_of(ikm: Seq<u8>, info: Seq<u8>, len: nat) -> Seq<u8>;

/// HMAC-SHA256 of `msg` under `key`.
pub uninterp spec fn hmac_sha256_of(key: Seq<u8>, msg: Seq<u8>) -> Seq<u8>;

/// SHA-256 digest of `msg`.
pub uninterp spec fn sha256_of(msg: Seq<u8>) -> Seq<u8>;

/// PBKDF2-HMAC-SHA256 with `rounds` iterations, 32 bytes of output.
pub uninterp spec fn pbkdf2_sha256_of(password: Seq<u8>, salt: Seq<u8>, rounds: u32) -> Seq<u8>;

/// Argon2id (version 0x13) with the given costs, 32 bytes of output.
pub uninterp spec fn argon2id_of(secret: Seq<u8>, salt: Seq<u8>, m_cost: u32, t_cost: u32, p_cost: u32) -> Seq<u8>;

/// ChaCha20-Poly1305 encryption (no associated data): ciphertext followed by the tag.
pub uninterp spec fn aead_seal_of(key: Seq<u8>, nonce: Seq<u8>, plaintext: Seq<u8>) -> Seq<u8>;

/// ChaCha20-Poly1305 decryption (no associated data); `None` when the tag does not verify.
pub uninterp spec fn aead_open_of(key: Seq<u8>, nonce: Seq<u8>, ciphertext: Seq<u8>) -> Option<Seq<u8>>;

/// The Ed25519 public key of a 32-byte seed.
pub uninterp spec fn ed25519_public_of(seed: Seq<u8>) -> Seq<u8>;

/// The Ed25519 signature of `msg` under a 64-byte `seed ‖ public` key pair.
pub uninterp spec fn ed25519_signature_of(keypair: Seq<u8>, msg: Seq<u8>) -> Seq<u8>;

/// Ed25519 verification: `None` when `public` is no curve point, else whether `sig` verifies.
pub uninterp spec fn ed25519_verify_of(public: Seq<u8>, msg: Seq<u8>, sig: Seq<u8>) -> Option<bool>;

/// Relies on base64's `STANDARD` engine `encode`: the padded base64 text of the
/// bytes (four characters for each started group of three bytes), which the
/// same engine's (canonical) `decode` maps back to them.
#[verifier::external_body]
pub(crate) fn b64_encode(data: &[u8]) -> (r: String)
    ensures
        r@ == b64_encode_of(data@),
        r@.len() == 4 * ((data@.len() + 2) / 3),
        b64_decode_of(r@) == Some(data@),
{
    base64::Engine::encode(&base64::engine::general_purpose::STANDARD, data)
}

/// Relies on base64's `STANDARD` engine `decode`.
#[verifier::external_body]
pub(crate) fn b64_decode(text: &str) -> (r: Option<Vec<u8>>)
    ensures
        match r {
            Some(v) => b64_decode_of(text@) == Some(v@),
            None => b64_decode_of(text@) is None,
        },
{
    base64::Engine::decode(&base64::engine::general_purpose::STANDARD, text).ok()
}

/// Relies on x25519_dalek's `PublicKey::from(&StaticSecret)`: the public key of
/// the (clamped) scalar. Diffie-Hellman agrees from both sides of two key pairs:
/// `DH(o, pub(s)) == DH(s, pub(o))`, as both are `clamp(o)·clamp(s)·B`.
#[verifier::external_body]
pub(crate) fn x25519_public(secret: [u8; 32]) -> (r: [u8; 32])
    ensures
        r@ == x25519_public_of(secret@),
        forall|other: Seq<u8>|
            other.len() == 32 ==> #[trigger] x25519_dh_of(other, r@) == x25519_dh_of(
                secret@,
                x25519_public_of(other),
            ),
{
    x25519_dalek::PublicKey::from(&x25519_dalek::StaticSecret::from(secret)).to_bytes()
}

/// Relies on x25519_dalek's `StaticSecret::diffie_hellman`.
#[verifier::external_body]
pub(crate) fn x25519_dh(secret: [u8; 32], public: [u8; 32]) -> (r: [u8; 32])
    ensures
        r@ == x25519_dh_of(secret@, public@),
{
    let sk = x25519_dalek::StaticSecret::from(secret);
    sk.diffie_hellman(&x25519_dalek::PublicKey::from(public)).to_bytes()
}

/// Relies on hkdf's `Hkdf::<Sha256>::new(None, ikm)` and `expand`, which
/// succeeds for any output of at most 255 hash blocks.
#[verifier::external_body]
pub(crate) fn hkdf_sha256(ikm: &[u8], info: &[u8], len: usize) -> (r: Vec<u8>)
    requires
        len <= 8160,
    ensures
        r@ == hkdf_sha256_of(ikm@, info@, len as nat),
        r@.len() == len,
{
    let hk = hkdf::Hkdf::<sha2::Sha256>::new(None, ikm);
    let mut okm = vec![0u8; len];
    hk.expand(info, &mut okm).expect("output within 255 blocks");
    okm
}

/// Relies on hmac's `Hmac::<Sha256>`, which takes a key of any length.
#[verifier::external_body]
pub(crate) fn hmac_sha256(key: &[u8], msg: &[u8]) -> (r: [u8; 32])
    ensures
        r@ == hmac_sha256_of(key@, msg@),
{
    let mut mac = <hmac::Hmac<sha2::Sha256> as hmac::Mac>::new_from_slice(key).expect("any key length");
    hmac::Mac::update(&mut mac, msg);
    hmac::Mac::finalize(mac).into_bytes().into()
}

/// Relies on sha2's `Sha256::digest`.
#[verifier::external_body]
pub(crate) fn sha256(msg: &[u8]) -> (r: [u8; 32])
    ensures
        r@ == sha256_of(msg@),
{
    <sha2::Sha256 as sha2::Digest>::digest(msg).into()
}

/// Relies on pbkdf2's `pbkdf2_hmac::<Sha256>`, which accepts any password and salt.
#[verifier::external_body]
pub(crate) fn pbkdf2_sha256(password: &[u8], salt: &[u8], rounds: u32) -> (r: [u8; 32])
    ensures
        r@ == pbkdf2_sha256_of(password@, salt@, rounds),
{
    let mut out = [0u8; 32];
    pbkdf2::pbkdf2_hmac::<sha2::Sha256>(password, salt, rounds, &mut out);
    out
}

/// Relies on argon2's `Params::new` and `Argon2::hash_password_into` (Argon2id,
/// version 0x13). Those accept exactly: memory of at least 8 blocks per lane,
/// at least one pass, 1 to 0xFFFFFF lanes, a salt of 8 to 0xFFFFFFFF bytes and a
/// secret of at most 0xFFFFFFFF bytes.
#[verifier::external_body]
pub(crate) fn argon2id(secret: &[u8], salt: &[u8], m_cost: u32, t_cost: u32, p_cost: u32) -> (r: Option<[u8; 32]>)
    requires
        1 <= p_cost <= 0xFF_FFFF,
    ensures
        r is Some <==> (m_cost >= 8 * p_cost && t_cost >= 1 && 8 <= salt@.len() <= 0xFFFF_FFFF
            && secret@.len() <= 0xFFFF_FFFF),
        r matches Some(k) ==> k@ == argon2id_of(secret@, salt@, m_cost, t_cost, p_cost),
{
    let params = argon2::Params::new(m_cost, t_cost, p_cost, Some(32)).ok()?;
    let a = argon2::Argon2::new(argon2::Algorithm::Argon2id, argon2::Version::V0x13, params);
    let mut out = [0u8; 32];
    a.hash_password_into(secret, salt, &mut out).ok()?;
    Some(out)
}

/// Relies on chacha20poly1305's `Aead::encrypt` with no associated data. It
/// refuses a plaintext of `u32::MAX` blocks of 64 bytes or more; it appends a
/// 16-byte tag, which makes `decrypt` give the plaintext back.
#[verifier::external_body]
pub(crate) fn aead_seal(key: &[u8; 32], nonce: &[u8; 12], plaintext: &[u8]) -> (r: Option<Vec<u8>>)
    ensures
        r is Some <==> plaintext@.len() / 64 < 0xFFFF_FFFF,
        r matches Some(c) ==> c@.len() == plaintext@.len() + 16,
        r matches Some(c) ==> c@ == aead_seal_of(key@, nonce@, plaintext@) && aead_open_of(
            key@,
            nonce@,
            c@,
        ) == Some(plaintext@),
{
    let cipher = <chacha20poly1305::ChaCha20Poly1305 as chacha20poly1305::KeyInit>::new(key.into());
    chacha20poly1305::aead::Aead::encrypt(&cipher, nonce.into(), plaintext).ok()
}

/// Relies on chacha20poly1305's `Aead::decrypt` with no associated data.
#[verifier::external_body]
pub(crate) fn aead_open(key: &[u8; 32], nonce: &[u8; 12], ciphertext: &[u8]) -> (r: Option<Vec<u8>>)
    ensures
        match r {
            Some(p) => aead_open_of(key@, nonce@, ciphertext@) == Some(p@),
            None => aead_open_of(key@, nonce@, ciphertext@) is None,
        },
{
    let cipher = <chacha20poly1305::ChaCha20Poly1305 as chacha20poly1305::KeyInit>::new(key.into());
    chacha20poly1305::aead::Aead::decrypt(&cipher, nonce.into(), ciphertext).ok()
}

/// Relies on ed25519_dalek's `SigningKey::from_bytes` and `verifying_key`.
#[verifier::external_body]
pub(crate) fn ed25519_public(seed: &[u8; 32]) -> (r: [u8; 32])
    ensures
        r@ == ed25519_public_of(seed@),
{
    ed25519_dalek::SigningKey::from_bytes(seed).verifying_key().to_bytes()
}

/// Relies on ed25519_dalek's `SigningKey::from_keypair_bytes`, which accepts a
/// pair exactly when its second half is the public key of its first, and on
/// `try_sign`, whose signature verifies under that public key.
#[verifier::external_body]
pub(crate) fn ed25519_sign(keypair: &[u8; 64], msg: &[u8]) -> (r: Option<[u8; 64]>)
    ensures
        r is Some <==> keypair@.subrange(32, 64) == ed25519_public_of(keypair@.subrange(0, 32)),
        r matches Some(s) ==> s@ == ed25519_signature_of(keypair@, msg@) && ed25519_verify_of(
            keypair@.subrange(32, 64),
            msg@,
            s@,
        ) == Some(true),
{
    let key = ed25519_dalek::SigningKey::from_keypair_bytes(keypair).ok()?;
    match ed25519_dalek::Signer::try_sign(&key, msg) {
        Ok(s) => Some(s.to_bytes()),
        Err(_) => None,
    }
}

/// Relies on ed25519_dalek's `VerifyingKey::from_bytes` and `Verifier::verify`.
#[verifier::external_body]
pub(crate) fn ed25519_verify(public: &[u8; 32], msg: &[u8], sig: &[u8; 64]) -> (r: Option<bool>)
    ensures
        r == ed25519_verify_of(public@, msg@, sig@),
{
    match ed25519_dalek::VerifyingKey::from_bytes(public) {
        Ok(vk) => {
            let s = ed25519_dalek::Signature::from_bytes(sig);
            Some(ed25519_dalek::Verifier::verify(&vk, msg, &s).is_ok())
        },
        Err(_) => None,
    }
}

/// Relies on getrandom's `getrandom`: `len` bytes from the operating system's
/// secure generator. A generator that fails is fatal, as for the rest of the
/// library.
#[verifier::external_body]
pub(crate) fn random_bytes(len: usize) -> (r: Vec<u8>)
    ensures
        r@.len() == len,
{
    let mut buf = vec![0u8; len];
    getrandom::getrandom(&mut buf).expect("operating system random source");
    buf
}

/// Relies on std's `String::from_utf8`: the text of valid UTF-8 bytes.
#[verifier::external_body]
pub(crate) fn utf8_to_string(bytes: Vec<u8>) -> (r: Option<String>)
    ensures
        match r {
            Some(s) => vstd::utf8::valid_utf8(bytes@) && s@ == vstd::utf8::decode_utf8(bytes@),
            None => !vstd::utf8::valid_utf8(bytes@),
        },
{
    String::from_utf8(bytes).ok()
}

/// Relies on chrono's `Utc::now().to_rfc3339()`: the current time as text.
#[verifier::external_body]
pub(crate) fn now_rfc3339() -> (r: String) {
    chrono::Utc::now().to_rfc3339()
}

/// Relies on chrono's `Utc::now().timestamp()`: the current time in seconds.
#[verifier::external_body]
pub(crate) fn now_timestamp() -> (r: i64) {
    chrono::Utc::now().timestamp()
}

/// Relies on zeroize's `Zeroize` for byte arrays: every byte is overwritten with zero.
#[verifier::external_body]
pub(crate) fn scrub(buf: &mut [u8; 32])
    ensures
        final(buf)@ == Seq::new(32, |i: int| 0u8),
    opens_invariants none
    no_unwind
{
    zeroize::Zeroize::zeroize(buf)
}

} // verus!
