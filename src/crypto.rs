//! Key handling, key derivation, signing and authenticated encryption.
//!
//! Keys, nonces, salts and ciphertexts cross this boundary as standard padded
//! base64 text; the spec functions below say what each text must decode to.
use vstd::prelude::*;
use crate::error::CryptoError;
use crate::primitives::{
    aead_open, aead_open_of, aead_seal, aead_seal_of, argon2id, argon2id_of, b64_decode, b64_decode_of,
    b64_encode, b64_encode_of, ed25519_public, ed25519_public_of, ed25519_sign, ed25519_signature_of,
    ed25519_verify, ed25519_verify_of, hkdf_sha256, hkdf_sha256_of, now_rfc3339, pbkdf2_sha256,
    pbkdf2_sha256_of, random_bytes, sha256, sha256_of, utf8_to_string, x25519_dh, x25519_dh_of,
    x25519_public, x25519_public_of, scrub,
};
use crate::types::{AeadKey, Argon2Config, KeyPair};
use vstd::string::StrSliceExecFns;

verus! {

/// What decoding `text` as base64 gives, as the library reports it.
pub open spec fn decode_spec(text: Seq<char>) -> Result<Seq<u8>, CryptoError> {
    match b64_decode_of(text) {
        Some(b) => Ok(b),
        None => Err(CryptoError::Base64),
    }
}

/// `text` decoded, required to be exactly `n` bytes.
pub open spec fn decode_sized_spec(text: Seq<char>, n: nat) -> Result<Seq<u8>, CryptoError> {
    match b64_decode_of(text) {
        Some(b) => if b.len() == n {
            Ok(b)
        } else {
            Err(CryptoError::InvalidKeyLen(b.len() as usize))
        },
        None => Err(CryptoError::Base64),
    }
}

/// A raw 32-byte key from its base64 text.
pub open spec fn import_key_spec(text: Seq<char>) -> Result<Seq<u8>, CryptoError> {
    decode_sized_spec(text, 32)
}

/// Diffie-Hellman from either side agrees for the secret scalar `sk`.
pub open spec fn dh_agrees(sk: Seq<u8>) -> bool {
    forall|other: Seq<u8>|
        other.len() == 32 ==> #[trigger] x25519_dh_of(other, x25519_public_of(sk)) == x25519_dh_of(
            sk,
            x25519_public_of(other),
        )
}

/// `kp` holds, as base64, a 32-byte X25519 secret scalar and its public key.
pub open spec fn is_x25519_pair(kp: KeyPair) -> bool {
    &&& import_key_spec(kp.private_key@) is Ok
    &&& import_key_spec(kp.public_key@) == Ok::<Seq<u8>, CryptoError>(
        x25519_public_of(import_key_spec(kp.private_key@)->Ok_0),
    )
    &&& dh_agrees(import_key_spec(kp.private_key@)->Ok_0)
}

/// The X25519 shared secret of a private key text and a public key text.
pub open spec fn dh_text_spec(private_text: Seq<char>, public_text: Seq<char>) -> Result<Seq<u8>, CryptoError> {
    match import_key_spec(public_text) {
        Err(e) => Err(e),
        Ok(pk) => match import_key_spec(private_text) {
            Err(e) => Err(e),
            Ok(sk) => Ok(x25519_dh_of(sk, pk)),
        },
    }
}

pub(crate) fn b64_decode_checked(text: &str) -> (r: Result<Vec<u8>, CryptoError>)
    ensures
        match r {
            Ok(v) => decode_spec(text@) == Ok::<Seq<u8>, CryptoError>(v@),
            Err(e) => decode_spec(text@) == Err::<Seq<u8>, CryptoError>(e),
        },
{
    match b64_decode(text) {
        Some(v) => Ok(v),
        None => Err(CryptoError::Base64),
    }
}

/// Decodes `text` to exactly 32 bytes.
pub(crate) fn decode32(text: &str) -> (r: Result<[u8; 32], CryptoError>)
    ensures
        match r {
            Ok(a) => import_key_spec(text@) == Ok::<Seq<u8>, CryptoError>(a@),
            Err(e) => import_key_spec(text@) == Err::<Seq<u8>, CryptoError>(e),
        },
{
    let bytes = b64_decode_checked(text)?;
    if bytes.len() != 32 {
        return Err(CryptoError::InvalidKeyLen(bytes.len()));
    }
    let a = crate::bytes::array32_at(&bytes, 0);
    assert(a@ =~= bytes@);
    Ok(a)
}

/// Decodes `text` to exactly 12 bytes.
pub(crate) fn decode12(text: &str) -> (r: Result<[u8; 12], CryptoError>)
    ensures
        match r {
            Ok(a) => decode_sized_spec(text@, 12) == Ok::<Seq<u8>, CryptoError>(a@),
            Err(e) => decode_sized_spec(text@, 12) == Err::<Seq<u8>, CryptoError>(e),
        },
{
    let bytes = b64_decode_checked(text)?;
    if bytes.len() != 12 {
        return Err(CryptoError::InvalidKeyLen(bytes.len()));
    }
    let a = crate::bytes::array12_at(&bytes, 0);
    assert(a@ =~= bytes@);
    Ok(a)
}

/// Random bytes of a fixed size of 32.
pub(crate) fn random32() -> (r: [u8; 32]) {
    let v = random_bytes(32);
    crate::bytes::array32_at(&v, 0)
}

/// Random bytes of a fixed size of 12.
pub(crate) fn random12() -> (r: [u8; 12]) {
    let v = random_bytes(12);
    crate::bytes::array12_at(&v, 0)
}

/// A fresh random 12-byte nonce, as base64.
pub fn generate_nonce() -> (r: String)
    ensures
        b64_decode_of(r@) matches Some(b) && b.len() == 12,
{
    let n = random12();
    b64_encode(&n)
}

/// A fresh random 16-byte salt, as base64.
pub fn generate_salt() -> (r: String)
    ensures
        b64_decode_of(r@) matches Some(b) && b.len() == 16,
{
    let s = random_bytes(16);
    b64_encode(&s)
}

/// A fresh X25519 key pair: a random secret scalar and its public key.
pub fn generate_key_pair(_extractable_private_key: bool) -> (r: KeyPair)
    ensures
        is_x25519_pair(r),
        r.public_key@.len() == 44 && r.private_key@.len() == 44,
{
    let sk = random32();
    let pk = x25519_public(sk);
    let public_key = b64_encode(&pk);
    let private_key = b64_encode(&sk);
    KeyPair { public_key, private_key }
}

/// Base64 of a raw X25519 public key.
pub fn export_public_key_b64(public_key: &[u8; 32]) -> (r: String)
    ensures
        r@ == b64_encode_of(public_key@),
        import_key_spec(r@) == Ok::<Seq<u8>, CryptoError>(public_key@),
{
    b64_encode(public_key)
}

/// Base64 of a raw X25519 private key.
pub fn export_private_key_b64(private_key: &[u8; 32]) -> (r: String)
    ensures
        r@ == b64_encode_of(private_key@),
        import_key_spec(r@) == Ok::<Seq<u8>, CryptoError>(private_key@),
{
    b64_encode(private_key)
}

/// The raw X25519 public key of a base64 text of 32 bytes.
pub fn import_public_key_b64(b64: &str) -> (r: Result<[u8; 32], CryptoError>)
    ensures
        match r {
            Ok(a) => import_key_spec(b64@) == Ok::<Seq<u8>, CryptoError>(a@),
            Err(e) => import_key_spec(b64@) == Err::<Seq<u8>, CryptoError>(e),
        },
{
    decode32(b64)
}

/// The raw X25519 private key of a base64 text of 32 bytes.
pub fn import_private_key_b64(b64: &str) -> (r: Result<[u8; 32], CryptoError>)
    ensures
        match r {
            Ok(a) => import_key_spec(b64@) == Ok::<Seq<u8>, CryptoError>(a@),
            Err(e) => import_key_spec(b64@) == Err::<Seq<u8>, CryptoError>(e),
        },
{
    decode32(b64)
}

/// X25519 Diffie-Hellman of two base64 key texts (public key checked first).
pub fn dh_from_b64(private_b64: &str, public_b64: &str) -> (r: Result<[u8; 32], CryptoError>)
    ensures
        match r {
            Ok(a) => dh_text_spec(private_b64@, public_b64@) == Ok::<Seq<u8>, CryptoError>(a@),
            Err(e) => dh_text_spec(private_b64@, public_b64@) == Err::<Seq<u8>, CryptoError>(e),
        },
{
    let pk = import_public_key_b64(public_b64)?;
    let sk = import_private_key_b64(private_b64)?;
    Ok(x25519_dh(sk, pk))
}

} // verus!

verus! {

/// The `info` of the key-wrap HKDF step: the ASCII text "ren-sdk-wrap".
pub open spec fn wrap_info() -> Seq<u8> {
    seq![114u8, 101, 110, 45, 115, 100, 107, 45, 119, 114, 97, 112]
}

const WRAP_INFO: [u8; 12] = [114u8, 101, 110, 45, 115, 100, 107, 45, 119, 114, 97, 112];

/// `nonce ‖ ciphertext` opened under `key`; `None` when shorter than a nonce
/// or when the tag does not verify.
pub open spec fn open_combined_spec(data: Seq<u8>, key: Seq<u8>) -> Option<Seq<u8>> {
    if data.len() < 12 {
        None
    } else {
        aead_open_of(key, data.subrange(0, 12), data.subrange(12, data.len() as int))
    }
}

/// Plaintext bytes as text, where they are valid UTF-8.
pub open spec fn utf8_spec(p: Seq<u8>) -> Result<Seq<char>, CryptoError> {
    if vstd::utf8::valid_utf8(p) {
        Ok(vstd::utf8::decode_utf8(p))
    } else {
        Err(CryptoError::Aead)
    }
}

/// What [`decrypt_data`] returns for a base64 `nonce ‖ ciphertext` text.
pub open spec fn decrypt_data_spec(text: Seq<char>, key: Seq<u8>) -> Result<Seq<char>, CryptoError> {
    match decode_spec(text) {
        Err(e) => Err(e),
        Ok(d) => match open_combined_spec(d, key) {
            None => Err(CryptoError::Aead),
            Some(p) => utf8_spec(p),
        },
    }
}

/// Ciphertext and nonce texts opened under `key`, the nonce checked first.
pub open spec fn open_texts_spec(ct_text: Seq<char>, nonce_text: Seq<char>, key: Seq<u8>) -> Result<Seq<u8>, CryptoError> {
    match decode_spec(ct_text) {
        Err(e) => Err(e),
        Ok(ct) => match decode_sized_spec(nonce_text, 12) {
            Err(e) => Err(e),
            Ok(n) => match aead_open_of(key, n, ct) {
                None => Err(CryptoError::Aead),
                Some(p) => Ok(p),
            },
        },
    }
}

/// Raw ciphertext opened under `key` with a nonce text.
pub open spec fn open_raw_spec(ct: Seq<u8>, nonce_text: Seq<char>, key: Seq<u8>) -> Result<Seq<u8>, CryptoError> {
    match decode_sized_spec(nonce_text, 12) {
        Err(e) => Err(e),
        Ok(n) => match aead_open_of(key, n, ct) {
            None => Err(CryptoError::Aead),
            Some(p) => Ok(p),
        },
    }
}

/// AEAD accepts a plaintext of this many bytes.
pub open spec fn sealable(len: nat) -> bool {
    len / 64 < 0xFFFF_FFFF
}

/// Seals `plaintext` under `key` with a fresh random nonce.
pub(crate) fn seal_fresh(key: &[u8; 32], plaintext: &[u8]) -> (r: Result<([u8; 12], Vec<u8>), CryptoError>)
    ensures
        r is Ok <==> sealable(plaintext@.len()),
        r matches Err(e) ==> e == CryptoError::Aead,
        r matches Ok((n, c)) ==> c@ == aead_seal_of(key@, n@, plaintext@) && aead_open_of(key@, n@, c@)
            == Some(plaintext@) && c@.len() == plaintext@.len() + 16,
{
    let nonce = random12();
    match aead_seal(key, &nonce, plaintext) {
        Some(c) => Ok((nonce, c)),
        None => Err(CryptoError::Aead),
    }
}

/// Opens `ciphertext` under `key` and `nonce`.
pub(crate) fn open_bytes(key: &[u8; 32], nonce: &[u8; 12], ciphertext: &[u8]) -> (r: Result<Vec<u8>, CryptoError>)
    ensures
        match r {
            Ok(p) => aead_open_of(key@, nonce@, ciphertext@) == Some(p@),
            Err(e) => e == CryptoError::Aead && aead_open_of(key@, nonce@, ciphertext@) is None,
        },
{
    match aead_open(key, nonce, ciphertext) {
        Some(p) => Ok(p),
        None => Err(CryptoError::Aead),
    }
}

/// Opens a `nonce ‖ ciphertext` buffer under `key`.
pub(crate) fn open_combined(key: &[u8; 32], data: &[u8]) -> (r: Result<Vec<u8>, CryptoError>)
    ensures
        match r {
            Ok(p) => open_combined_spec(data@, key@) == Some(p@),
            Err(e) => e == CryptoError::Aead && open_combined_spec(data@, key@) is None,
        },
{
    if data.len() < 12 {
        return Err(CryptoError::Aead);
    }
    let nonce = crate::bytes::array12_at(data, 0);
    let ct = slice_from(data, 12);
    open_bytes(key, &nonce, &ct)
}

/// The bytes of `data` from `start` on.
pub(crate) fn slice_from(data: &[u8], start: usize) -> (r: Vec<u8>)
    requires
        start <= data@.len(),
    ensures
        r@ == data@.subrange(start as int, data@.len() as int),
{
    let mut r: Vec<u8> = Vec::new();
    let mut i = start;
    while i < data.len()
        invariant
            start <= i <= data@.len(),
            r@ == data@.subrange(start as int, i as int),
        decreases data@.len() - i,
    {
        r.push(data[i]);
        i = i + 1;
        assert(r@ =~= data@.subrange(start as int, i as int));
    }
    r
}

/// `nonce ‖ ciphertext` in one buffer.
pub(crate) fn join_nonce(nonce: &[u8; 12], ct: &[u8]) -> (r: Vec<u8>)
    ensures
        r@ == nonce@ + ct@,
        r@.subrange(0, 12) == nonce@,
        r@.subrange(12, r@.len() as int) == ct@,
{
    let mut out = crate::bytes::bytes_to_vec(nonce);
    crate::bytes::append_bytes(&mut out, ct);
    assert(out@.subrange(0, 12) =~= nonce@);
    assert(out@.subrange(12, out@.len() as int) =~= ct@);
    out
}

/// Encrypts text under `key` with a fresh nonce: base64 of `nonce(12) ‖ ciphertext`.
pub fn encrypt_data(data: &str, key: &AeadKey) -> (r: Result<String, CryptoError>)
    ensures
        r is Ok <==> sealable(vstd::utf8::encode_utf8(data@).len()),
        r matches Err(e) ==> e == CryptoError::Aead,
        r matches Ok(s) ==> decrypt_data_spec(s@, key.0@) == Ok::<Seq<char>, CryptoError>(data@),
        r matches Ok(s) ==> (b64_decode_of(s@) matches Some(d) && d.len() >= 12 && d.subrange(12, d.len() as int)
            == aead_seal_of(key.0@, d.subrange(0, 12), vstd::utf8::encode_utf8(data@))),
{
    let (nonce, ct) = seal_fresh(&key.0, data.as_bytes())?;
    let out = join_nonce(&nonce, &ct);
    let s = b64_encode(&out);
    proof {
        vstd::utf8::encode_utf8_valid_utf8(data@);
        vstd::utf8::encode_utf8_decode_utf8(data@);
    }
    Ok(s)
}

} // verus!

verus! {

/// Decrypts the output of [`encrypt_data`] back to text.
pub fn decrypt_data(b64_combined: &str, key: &AeadKey) -> (r: Result<String, CryptoError>)
    ensures
        match r {
            Ok(s) => decrypt_data_spec(b64_combined@, key.0@) == Ok::<Seq<char>, CryptoError>(s@),
            Err(e) => decrypt_data_spec(b64_combined@, key.0@) == Err::<Seq<char>, CryptoError>(e),
        },
{
    let data = b64_decode_checked(b64_combined)?;
    let pt = open_combined(&key.0, &data)?;
    match utf8_to_string(pt) {
        Some(s) => Ok(s),
        None => Err(CryptoError::Aead),
    }
}

/// A fresh random 32-byte AEAD key.
pub fn generate_message_encryption_key() -> (r: AeadKey) {
    AeadKey(random32())
}

/// Encrypts a short text: base64 ciphertext and base64 nonce.
pub fn encrypt_message(data: &str, key: &AeadKey) -> (r: Result<crate::types::EncryptedMessage, CryptoError>)
    ensures
        r is Ok <==> sealable(vstd::utf8::encode_utf8(data@).len()),
        r matches Err(e) ==> e == CryptoError::Aead,
        r matches Ok(m) ==> (match open_texts_spec(m.ciphertext@, m.nonce@, key.0@) {
            Ok(p) => utf8_spec(p) == Ok::<Seq<char>, CryptoError>(data@),
            Err(_) => false,
        }),
{
    let (nonce, ct) = seal_fresh(&key.0, data.as_bytes())?;
    let ciphertext = b64_encode(&ct);
    let nonce_text = b64_encode(&nonce);
    proof {
        vstd::utf8::encode_utf8_valid_utf8(data@);
        vstd::utf8::encode_utf8_decode_utf8(data@);
    }
    Ok(crate::types::EncryptedMessage { ciphertext, nonce: nonce_text })
}

/// Opens base64 ciphertext and nonce texts under `key`.
pub(crate) fn open_texts(ciphertext_b64: &str, nonce_b64: &str, key: &AeadKey) -> (r: Result<Vec<u8>, CryptoError>)
    ensures
        match r {
            Ok(p) => open_texts_spec(ciphertext_b64@, nonce_b64@, key.0@) == Ok::<Seq<u8>, CryptoError>(p@),
            Err(e) => open_texts_spec(ciphertext_b64@, nonce_b64@, key.0@) == Err::<Seq<u8>, CryptoError>(e),
        },
{
    let ct = b64_decode_checked(ciphertext_b64)?;
    let nonce = decode12(nonce_b64)?;
    open_bytes(&key.0, &nonce, &ct)
}

/// Decrypts the output of [`encrypt_message`] back to text.
pub fn decrypt_message(ciphertext_b64: &str, nonce_b64: &str, key: &AeadKey) -> (r: Result<String, CryptoError>)
    ensures
        match open_texts_spec(ciphertext_b64@, nonce_b64@, key.0@) {
            Ok(p) => match r {
                Ok(s) => utf8_spec(p) == Ok::<Seq<char>, CryptoError>(s@),
                Err(e) => utf8_spec(p) == Err::<Seq<char>, CryptoError>(e),
            },
            Err(e) => r == Err::<String, CryptoError>(e),
        },
{
    let pt = open_texts(ciphertext_b64, nonce_b64, key)?;
    match utf8_to_string(pt) {
        Some(s) => Ok(s),
        None => Err(CryptoError::Aead),
    }
}

/// Decrypts raw ciphertext bytes with a base64 nonce.
pub fn decrypt_file_raw(ciphertext: &[u8], nonce_b64: &str, key: &AeadKey) -> (r: Result<Vec<u8>, CryptoError>)
    ensures
        match r {
            Ok(p) => open_raw_spec(ciphertext@, nonce_b64@, key.0@) == Ok::<Seq<u8>, CryptoError>(p@),
            Err(e) => open_raw_spec(ciphertext@, nonce_b64@, key.0@) == Err::<Seq<u8>, CryptoError>(e),
        },
{
    let nonce = decode12(nonce_b64)?;
    open_bytes(&key.0, &nonce, ciphertext)
}

/// Encrypts file bytes: base64 ciphertext and nonce, name and type kept.
pub fn encrypt_file(bytes: &[u8], filename: &str, mimetype: &str, key: &AeadKey) -> (r: Result<crate::types::EncryptedFile, CryptoError>)
    ensures
        r is Ok <==> sealable(bytes@.len()),
        r matches Err(e) ==> e == CryptoError::Aead,
        r matches Ok(f) ==> open_texts_spec(f.ciphertext@, f.nonce@, key.0@) == Ok::<Seq<u8>, CryptoError>(bytes@)
            && f.filename@ == filename@ && f.mimetype@ == mimetype@,
{
    let (nonce, ct) = seal_fresh(&key.0, bytes)?;
    let ciphertext = b64_encode(&ct);
    let nonce_text = b64_encode(&nonce);
    Ok(crate::types::EncryptedFile {
        ciphertext,
        nonce: nonce_text,
        filename: filename.to_owned(),
        mimetype: mimetype.to_owned(),
    })
}

/// Decrypts the output of [`encrypt_file`].
pub fn decrypt_file(ciphertext_b64: &str, nonce_b64: &str, key: &AeadKey) -> (r: Result<Vec<u8>, CryptoError>)
    ensures
        match r {
            Ok(p) => open_texts_spec(ciphertext_b64@, nonce_b64@, key.0@) == Ok::<Seq<u8>, CryptoError>(p@),
            Err(e) => open_texts_spec(ciphertext_b64@, nonce_b64@, key.0@) == Err::<Seq<u8>, CryptoError>(e),
        },
{
    open_texts(ciphertext_b64, nonce_b64, key)
}

/// Encrypts file bytes: raw ciphertext and base64 nonce.
pub fn encrypt_file_raw(bytes: &[u8], key: &AeadKey) -> (r: Result<(Vec<u8>, String), CryptoError>)
    ensures
        r is Ok <==> sealable(bytes@.len()),
        r matches Err(e) ==> e == CryptoError::Aead,
        r matches Ok((c, n)) ==> open_raw_spec(c@, n@, key.0@) == Ok::<Seq<u8>, CryptoError>(bytes@),
{
    let (nonce, ct) = seal_fresh(&key.0, bytes)?;
    let nonce_text = b64_encode(&nonce);
    Ok((ct, nonce_text))
}

/// Encrypts a file and a message under one key and one fresh nonce.
pub fn encrypt_file_with_message(
    bytes: &[u8],
    message: &str,
    key: &AeadKey,
    filename: &str,
    mimetype: &str,
) -> (r: Result<crate::types::EncryptedFileWithMessage, CryptoError>)
    ensures
        r is Ok <==> sealable(bytes@.len()) && sealable(vstd::utf8::encode_utf8(message@).len()),
        r matches Err(e) ==> e == CryptoError::Aead,
        r matches Ok(f) ==> open_texts_spec(f.enc_file@, f.nonce@, key.0@) == Ok::<Seq<u8>, CryptoError>(bytes@)
            && (match open_texts_spec(f.ciphertext@, f.nonce@, key.0@) {
                Ok(p) => utf8_spec(p) == Ok::<Seq<char>, CryptoError>(message@),
                Err(_) => false,
            }) && f.filename@ == filename@ && f.mimetype@ == mimetype@,
{
    let nonce = random12();
    let enc_file = match aead_seal(&key.0, &nonce, bytes) {
        Some(c) => c,
        None => return Err(CryptoError::Aead),
    };
    let enc_msg = match aead_seal(&key.0, &nonce, message.as_bytes()) {
        Some(c) => c,
        None => return Err(CryptoError::Aead),
    };
    proof {
        vstd::utf8::encode_utf8_valid_utf8(message@);
        vstd::utf8::encode_utf8_decode_utf8(message@);
    }
    Ok(crate::types::EncryptedFileWithMessage {
        enc_file: b64_encode(&enc_file),
        ciphertext: b64_encode(&enc_msg),
        nonce: b64_encode(&nonce),
        filename: filename.to_owned(),
        mimetype: mimetype.to_owned(),
    })
}

/// What [`decrypt_file_with_message`] returns as file bytes and message text:
/// the nonce is decoded first, then both ciphertexts, then the file and the
/// message are opened and the message read as text.
pub open spec fn decrypt_fwm_spec(file_text: Seq<char>, msg_text: Seq<char>, nonce_text: Seq<char>, key: Seq<u8>) -> Result<
    (Seq<u8>, Seq<char>),
    CryptoError,
> {
    match decode_sized_spec(nonce_text, 12) {
        Err(e) => Err(e),
        Ok(n) => match decode_spec(file_text) {
            Err(e) => Err(e),
            Ok(fc) => match decode_spec(msg_text) {
                Err(e) => Err(e),
                Ok(mc) => match aead_open_of(key, n, fc) {
                    None => Err(CryptoError::Aead),
                    Some(f) => match aead_open_of(key, n, mc) {
                        None => Err(CryptoError::Aead),
                        Some(mp) => match utf8_spec(mp) {
                            Err(e) => Err(e),
                            Ok(t) => Ok((f, t)),
                        },
                    },
                },
            },
        },
    }
}

/// Decrypts the output of [`encrypt_file_with_message`]; see [`decrypt_fwm_spec`].
pub fn decrypt_file_with_message(
    enc_file_b64: &str,
    ciphertext_b64: &str,
    nonce_b64: &str,
    key: &AeadKey,
    filename: &str,
    mimetype: &str,
) -> (r: Result<crate::types::DecryptedFileWithMessage, CryptoError>)
    ensures
        match r {
            Ok(d) => decrypt_fwm_spec(enc_file_b64@, ciphertext_b64@, nonce_b64@, key.0@) == Ok::<
                (Seq<u8>, Seq<char>),
                CryptoError,
            >((d.file@, d.message@)) && d.filename@ == filename@ && d.mimetype@ == mimetype@,
            Err(e) => decrypt_fwm_spec(enc_file_b64@, ciphertext_b64@, nonce_b64@, key.0@) == Err::<
                (Seq<u8>, Seq<char>),
                CryptoError,
            >(e),
        },
{
    let nonce = decode12(nonce_b64)?;
    let file_ct = b64_decode_checked(enc_file_b64)?;
    let msg_ct = b64_decode_checked(ciphertext_b64)?;
    let file = open_bytes(&key.0, &nonce, &file_ct)?;
    let msg = open_bytes(&key.0, &nonce, &msg_ct)?;
    let message = match utf8_to_string(msg) {
        Some(s) => s,
        None => return Err(CryptoError::Aead),
    };
    Ok(crate::types::DecryptedFileWithMessage {
        file,
        message,
        filename: filename.to_owned(),
        mimetype: mimetype.to_owned(),
    })
}

} // verus!

verus! {

/// The key that wraps a symmetric key for a shared X25519 secret.
pub open spec fn wrap_key_of(shared: Seq<u8>) -> Seq<u8> {
    hkdf_sha256_of(shared, wrap_info(), 32)
}

/// `w`, `e` and `n` wrap `key` for the receiver public key `pk` with the
/// ephemeral secret `eph` and the nonce `nonce`: `e` is the ephemeral public
/// key, `n` the nonce, `w` the 48-byte AEAD output under the wrap key.
pub open spec fn wrap_parts(
    w: Seq<char>,
    e: Seq<char>,
    n: Seq<char>,
    key: Seq<u8>,
    pk: Seq<u8>,
    eph: Seq<u8>,
    nonce: Seq<u8>,
) -> bool {
    &&& eph.len() == 32 && nonce.len() == 12
    &&& x25519_public_of(eph).len() == 32
    &&& b64_decode_of(e) == Some(x25519_public_of(eph))
    &&& b64_decode_of(n) == Some(nonce)
    &&& b64_decode_of(w) == Some(aead_seal_of(wrap_key_of(x25519_dh_of(eph, pk)), nonce, key))
    &&& aead_seal_of(wrap_key_of(x25519_dh_of(eph, pk)), nonce, key).len() == key.len() + 16
}

/// What [`unwrap_symmetric_key`] returns for its four texts.
pub open spec fn unwrap_spec(
    wrapped: Seq<char>,
    ephemeral: Seq<char>,
    nonce: Seq<char>,
    receiver_private: Seq<char>,
) -> Result<Seq<u8>, CryptoError> {
    match decode_spec(wrapped) {
        Err(e) => Err(e),
        Ok(ct) => match decode_sized_spec(nonce, 12) {
            Err(e) => Err(e),
            Ok(n) => match dh_text_spec(receiver_private, ephemeral) {
                Err(e) => Err(e),
                Ok(shared) => match aead_open_of(wrap_key_of(shared), n, ct) {
                    None => Err(CryptoError::Aead),
                    Some(p) => if p.len() == 32 {
                        Ok(p)
                    } else {
                        Err(CryptoError::InvalidKeyLen(p.len() as usize))
                    },
                },
            },
        },
    }
}

/// The key that an HKDF output of 32 bytes makes.
fn key_from_okm(okm: &Vec<u8>) -> (r: [u8; 32])
    requires
        okm@.len() == 32,
    ensures
        r@ == okm@,
{
    let a = crate::bytes::array32_at(okm, 0);
    assert(a@ =~= okm@);
    a
}

/// Wraps `key_to_wrap` for the holder of an X25519 key pair: a fresh ephemeral
/// key pair, ECDH with the receiver, HKDF-SHA256 with info "ren-sdk-wrap", and
/// ChaCha20-Poly1305 under a fresh nonce. Returns the base64 wrapped key,
/// ephemeral public key and nonce; any private key whose public key is the
/// receiver's unwraps them to `key_to_wrap`.
pub fn wrap_symmetric_key(key_to_wrap: &AeadKey, receiver_public_key_b64: &str) -> (r: Result<(String, String, String), CryptoError>)
    ensures
        match import_key_spec(receiver_public_key_b64@) {
            Err(e) => r == Err::<(String, String, String), CryptoError>(e),
            Ok(pk) => r matches Ok((w, e, n)) && (exists|eph: Seq<u8>, nonce: Seq<u8>|
                #[trigger] wrap_parts(w@, e@, n@, key_to_wrap.0@, pk, eph, nonce)) && forall|sk_text: Seq<char>|
                #![trigger import_key_spec(sk_text)]
                import_key_spec(sk_text) is Ok && x25519_public_of(import_key_spec(sk_text)->Ok_0) == pk
                    ==> unwrap_spec(w@, e@, n@, sk_text) == Ok::<Seq<u8>, CryptoError>(key_to_wrap.0@),
        },
{
    let receiver_pk = import_public_key_b64(receiver_public_key_b64)?;
    let mut eph_sk = random32();
    let eph_pk = x25519_public(eph_sk);
    let mut shared = x25519_dh(eph_sk, receiver_pk);
    let ghost eph = eph_sk@;
    let ghost sh = shared@;
    scrub(&mut eph_sk);
    let okm = hkdf_sha256(&shared, &WRAP_INFO, 32);
    scrub(&mut shared);
    let mut wrap_key = key_from_okm(&okm);
    let nonce = random12();
    let mut key_bytes = key_to_wrap.to_bytes();
    let ct = match aead_seal(&wrap_key, &nonce, &key_bytes) {
        Some(c) => c,
        None => return Err(CryptoError::Aead),
    };
    scrub(&mut key_bytes);
    scrub(&mut wrap_key);
    let w = b64_encode(&ct);
    let e = b64_encode(&eph_pk);
    let n = b64_encode(&nonce);
    proof {
        assert(WRAP_INFO@ =~= wrap_info());
        assert forall|sk_text: Seq<char>|
            #![trigger import_key_spec(sk_text)]
            import_key_spec(sk_text) is Ok && x25519_public_of(import_key_spec(sk_text)->Ok_0)
                == receiver_pk@ implies unwrap_spec(w@, e@, n@, sk_text) == Ok::<Seq<u8>, CryptoError>(
            key_to_wrap.0@,
        ) by {
            let sk = import_key_spec(sk_text)->Ok_0;
            assert(x25519_dh_of(sk, eph_pk@) == x25519_dh_of(eph, x25519_public_of(sk)));
            assert(dh_text_spec(sk_text, e@) == Ok::<Seq<u8>, CryptoError>(sh));
        }
        assert(wrap_parts(w@, e@, n@, key_to_wrap.0@, receiver_pk@, eph, nonce@));
    }
    Ok((w, e, n))
}

/// Unwraps a key wrapped by [`wrap_symmetric_key`] with the receiver's private key.
pub fn unwrap_symmetric_key(
    wrapped_key_b64: &str,
    ephemeral_public_key_b64: &str,
    nonce_b64: &str,
    receiver_private_key_b64: &str,
) -> (r: Result<AeadKey, CryptoError>)
    ensures
        match r {
            Ok(k) => unwrap_spec(wrapped_key_b64@, ephemeral_public_key_b64@, nonce_b64@, receiver_private_key_b64@)
                == Ok::<Seq<u8>, CryptoError>(k.0@),
            Err(e) => unwrap_spec(wrapped_key_b64@, ephemeral_public_key_b64@, nonce_b64@, receiver_private_key_b64@)
                == Err::<Seq<u8>, CryptoError>(e),
        },
{
    let ct = b64_decode_checked(wrapped_key_b64)?;
    let nonce = decode12(nonce_b64)?;
    let mut shared = dh_from_b64(receiver_private_key_b64, ephemeral_public_key_b64)?;
    let okm = hkdf_sha256(&shared, &WRAP_INFO, 32);
    scrub(&mut shared);
    let mut wrap_key = key_from_okm(&okm);
    proof {
        assert(WRAP_INFO@ =~= wrap_info());
    }
    let pt = open_bytes(&wrap_key, &nonce, &ct);
    scrub(&mut wrap_key);
    let pt = pt?;
    AeadKey::from_bytes(&pt)
}

} // verus!

verus! {

/// PBKDF2 iteration count for password-derived keys.
pub const PBKDF2_ROUNDS: u32 = 100_000;

/// What [`derive_key_from_password`] returns.
pub open spec fn password_key_spec(password: Seq<char>, salt_text: Seq<char>) -> Result<Seq<u8>, CryptoError> {
    match decode_spec(salt_text) {
        Err(e) => Err(e),
        Ok(salt) => if salt.len() == 0 {
            Err(CryptoError::InvalidKeyLen(0))
        } else {
            Ok(pbkdf2_sha256_of(vstd::utf8::encode_utf8(password), salt, 100_000))
        },
    }
}

/// A 32-byte key from a password and a base64 salt of at least one byte, by
/// PBKDF2-HMAC-SHA256 with 100 000 iterations.
pub fn derive_key_from_password(password: &str, salt_b64: &str) -> (r: Result<AeadKey, CryptoError>)
    ensures
        match r {
            Ok(k) => password_key_spec(password@, salt_b64@) == Ok::<Seq<u8>, CryptoError>(k.0@),
            Err(e) => password_key_spec(password@, salt_b64@) == Err::<Seq<u8>, CryptoError>(e),
        },
{
    let salt = b64_decode_checked(salt_b64)?;
    if salt.len() == 0 {
        return Err(CryptoError::InvalidKeyLen(0));
    }
    let out = pbkdf2_sha256(password.as_bytes(), &salt, PBKDF2_ROUNDS);
    Ok(AeadKey(out))
}

/// A 32-byte key from any text: its SHA-256 digest. Weak: for material that
/// routes nothing secret.
pub fn derive_key_from_string(secret: &str) -> (r: Result<AeadKey, CryptoError>)
    ensures
        r matches Ok(k) && k.0@ == sha256_of(vstd::utf8::encode_utf8(secret@)),
{
    let out = sha256(secret.as_bytes());
    Ok(AeadKey(out))
}

/// Largest lane count that Argon2 accepts.
pub const ARGON2_MAX_LANES: u32 = 0xFF_FFFF;

/// What [`derive_recovery_key_argon2id_with_config`] returns.
pub open spec fn recovery_key_spec(secret: Seq<char>, salt_text: Seq<char>, m: u32, t: u32, p: u32) -> Result<
    Seq<u8>,
    CryptoError,
> {
    match decode_spec(salt_text) {
        Err(e) => Err(e),
        Ok(salt) => if salt.len() < 16 {
            Err(CryptoError::InvalidKeyLen(salt.len() as usize))
        } else if m < 8 || t < 1 || p < 1 || p > 0xFF_FFFF || m < 8 * p || salt.len() > 0xFFFF_FFFF
            || vstd::utf8::encode_utf8(secret).len() > 0xFFFF_FFFF {
            Err(CryptoError::Argon2)
        } else {
            Ok(argon2id_of(vstd::utf8::encode_utf8(secret), salt, m, t, p))
        },
    }
}

/// A 32-byte recovery key by Argon2id with 64 MiB, 3 passes and 4 lanes.
pub fn derive_recovery_key_argon2id(recovery_secret: &str, salt_b64: &str) -> (r: Result<AeadKey, CryptoError>)
    ensures
        match r {
            Ok(k) => recovery_key_spec(recovery_secret@, salt_b64@, 65536, 3, 4) == Ok::<Seq<u8>, CryptoError>(k.0@),
            Err(e) => recovery_key_spec(recovery_secret@, salt_b64@, 65536, 3, 4) == Err::<Seq<u8>, CryptoError>(e),
        },
{
    let config = Argon2Config::default();
    derive_recovery_key_argon2id_with_config(recovery_secret, salt_b64, &config)
}

/// A 32-byte recovery key by Argon2id (version 0x13) with the given costs. The
/// salt must hold at least 16 bytes; memory at least 8 KiB per lane, at least
/// one pass and 1 to 0xFFFFFF lanes.
pub fn derive_recovery_key_argon2id_with_config(
    recovery_secret: &str,
    salt_b64: &str,
    config: &Argon2Config,
) -> (r: Result<AeadKey, CryptoError>)
    ensures
        match r {
            Ok(k) => recovery_key_spec(recovery_secret@, salt_b64@, config.memory_kib, config.iterations, config.parallelism)
                == Ok::<Seq<u8>, CryptoError>(k.0@),
            Err(e) => recovery_key_spec(recovery_secret@, salt_b64@, config.memory_kib, config.iterations, config.parallelism)
                == Err::<Seq<u8>, CryptoError>(e),
        },
{
    let salt = b64_decode_checked(salt_b64)?;
    if salt.len() < 16 {
        return Err(CryptoError::InvalidKeyLen(salt.len()));
    }
    if config.memory_kib < 8 || config.iterations < 1 || config.parallelism < 1
        || config.parallelism > ARGON2_MAX_LANES {
        return Err(CryptoError::Argon2);
    }
    match argon2id(recovery_secret.as_bytes(), &salt, config.memory_kib, config.iterations, config.parallelism) {
        Some(out) => Ok(AeadKey(out)),
        None => Err(CryptoError::Argon2),
    }
}

/// A fresh random salt of `size_bytes` bytes, but at least 16, as base64.
pub fn generate_recovery_salt(size_bytes: usize) -> (r: Result<String, CryptoError>)
    ensures
        r matches Ok(s) && (b64_decode_of(s@) matches Some(b) && b.len() == if size_bytes < 16 {
            16
        } else {
            size_bytes
        }),
{
    let size = if size_bytes < 16 {
        16
    } else {
        size_bytes
    };
    let salt = random_bytes(size);
    Ok(b64_encode(&salt))
}

} // verus!

verus! {

/// `v` as four little-endian bytes.
pub open spec fn le_u32(v: u32) -> Seq<u8> {
    seq![(v % 256) as u8, ((v / 256) % 256) as u8, ((v / 65536) % 256) as u8, (v / 16777216) as u8]
}

/// The bytes that a signed public key covers: the key's bytes, then the version.
pub open spec fn signed_message(pk: Seq<u8>, key_version: u32) -> Seq<u8> {
    pk + le_u32(key_version)
}

/// `pk ‖ le(key_version)` in one buffer.
pub(crate) fn signed_message_bytes(pk: &[u8], key_version: u32) -> (r: Vec<u8>)
    ensures
        r@ == signed_message(pk@, key_version),
{
    let mut msg = crate::bytes::bytes_to_vec(pk);
    let le: [u8; 4] = [
        (key_version % 256) as u8,
        ((key_version / 256) % 256) as u8,
        ((key_version / 65536) % 256) as u8,
        (key_version / 16777216) as u8,
    ];
    crate::bytes::append_bytes(&mut msg, &le);
    assert(le@ =~= le_u32(key_version));
    msg
}

/// `kp` holds, as base64, an Ed25519 seed and its public key, and the 64-byte
/// `seed ‖ public` private form.
pub open spec fn is_identity_pair(kp: crate::types::IdentityKeyPair) -> bool {
    &&& b64_decode_of(kp.private_key@) matches Some(b)
    &&& b.len() == 64
    &&& b.subrange(32, 64) == ed25519_public_of(b.subrange(0, 32))
    &&& b64_decode_of(kp.public_key@) == Some(b.subrange(32, 64))
}

/// What [`sign_public_key`] signs with, from the identity private key text.
pub open spec fn signing_pair_spec(identity_private: Seq<char>) -> Result<Seq<u8>, CryptoError> {
    match decode_spec(identity_private) {
        Err(e) => Err(e),
        Ok(b) => if b.len() != 64 {
            Err(CryptoError::InvalidKeyLen(b.len() as usize))
        } else if b.subrange(32, 64) != ed25519_public_of(b.subrange(0, 32)) {
            Err(CryptoError::Signature)
        } else {
            Ok(b)
        },
    }
}

/// Whether a signature text verifies over a public key text and a version,
/// under an identity public key text.
pub open spec fn verify_fields_spec(public_key: Seq<char>, signature: Seq<char>, key_version: u32, identity_public: Seq<char>) -> Result<
    bool,
    CryptoError,
> {
    match decode_sized_spec(identity_public, 32) {
        Err(e) => Err(e),
        Ok(id) => match decode_sized_spec(signature, 64) {
            Err(e) => Err(e),
            Ok(sig) => match decode_spec(public_key) {
                Err(e) => Err(e),
                Ok(pk) => match ed25519_verify_of(id, signed_message(pk, key_version), sig) {
                    None => Err(CryptoError::Signature),
                    Some(ok) => Ok(ok),
                },
            },
        },
    }
}

/// What [`verify_signed_public_key`] returns.
pub open spec fn verify_signed_spec(signed: crate::types::SignedPublicKey, identity_public: Seq<char>) -> Result<
    bool,
    CryptoError,
> {
    verify_fields_spec(signed.public_key@, signed.signature@, signed.key_version, identity_public)
}

/// A fresh Ed25519 identity key pair.
pub fn generate_identity_key_pair() -> (r: Result<crate::types::IdentityKeyPair, CryptoError>)
    ensures
        r matches Ok(kp) && is_identity_pair(kp) && kp.public_key@.len() == 44 && kp.private_key@.len() == 88,
{
    let mut seed = random32();
    let public = ed25519_public(&seed);
    let mut pair = crate::bytes::bytes_to_vec(&seed);
    crate::bytes::append_bytes(&mut pair, &public);
    assert(pair@.subrange(0, 32) =~= seed@);
    assert(pair@.subrange(32, 64) =~= public@);
    scrub(&mut seed);
    let kp = crate::types::IdentityKeyPair { public_key: b64_encode(&public), private_key: b64_encode(&pair) };
    Ok(kp)
}

/// Signs an X25519 public key (base64) with an Ed25519 identity private key
/// (base64 of `seed ‖ public`) over `key ‖ le(key_version)`. The result
/// verifies under the identity's public key.
pub fn sign_public_key(
    x25519_public_key_b64: &str,
    identity_private_key_b64: &str,
    key_version: u32,
) -> (r: Result<crate::types::SignedPublicKey, CryptoError>)
    ensures
        match signing_pair_spec(identity_private_key_b64@) {
            Err(e) => r == Err::<crate::types::SignedPublicKey, CryptoError>(e),
            Ok(kp) => match decode_spec(x25519_public_key_b64@) {
                Err(e) => r == Err::<crate::types::SignedPublicKey, CryptoError>(e),
                Ok(pk) => r matches Ok(s) && s.public_key@ == x25519_public_key_b64@ && s.key_version == key_version
                    && s.signature@.len() == 88
                    && b64_decode_of(s.signature@) == Some(ed25519_signature_of(kp, signed_message(pk, key_version)))
                    && forall|id: Seq<char>|
                    #![trigger verify_signed_spec(s, id)]
                    b64_decode_of(id) == Some(kp.subrange(32, 64)) ==> verify_signed_spec(s, id) == Ok::<
                        bool,
                        CryptoError,
                    >(true),
            },
        },
{
    let id_bytes = b64_decode_checked(identity_private_key_b64)?;
    if id_bytes.len() != 64 {
        return Err(CryptoError::InvalidKeyLen(id_bytes.len()));
    }
    let pair = crate::bytes::array64_at(&id_bytes, 0);
    assert(pair@ =~= id_bytes@);
    let seed = crate::bytes::array32_at(&id_bytes, 0);
    let stated = crate::bytes::array32_at(&id_bytes, 32);
    let derived = ed25519_public(&seed);
    if !crate::bytes::bytes_eq(&stated, &derived) {
        return Err(CryptoError::Signature);
    }
    let pk_bytes = b64_decode_checked(x25519_public_key_b64)?;
    let message = signed_message_bytes(&pk_bytes, key_version);
    let sig = match ed25519_sign(&pair, &message) {
        Some(s) => s,
        None => return Err(CryptoError::Signature),
    };
    let signature = b64_encode(&sig);
    let s = crate::types::SignedPublicKey {
        public_key: x25519_public_key_b64.to_owned(),
        signature,
        key_version,
        signed_at: now_rfc3339(),
    };
    Ok(s)
}

/// Whether `signed` carries a valid signature under the Ed25519 identity
/// public key (base64, 32 bytes). A `false` is an authentication failure, not
/// an error.
pub fn verify_signed_public_key(signed_key: &crate::types::SignedPublicKey, identity_public_key_b64: &str) -> (r: Result<
    bool,
    CryptoError,
>)
    ensures
        r == verify_signed_spec(*signed_key, identity_public_key_b64@),
{
    let id_bytes = b64_decode_checked(identity_public_key_b64)?;
    if id_bytes.len() != 32 {
        return Err(CryptoError::InvalidKeyLen(id_bytes.len()));
    }
    let id = crate::bytes::array32_at(&id_bytes, 0);
    assert(id@ =~= id_bytes@);
    let sig_bytes = b64_decode_checked(&signed_key.signature)?;
    if sig_bytes.len() != 64 {
        return Err(CryptoError::InvalidKeyLen(sig_bytes.len()));
    }
    let sig = crate::bytes::array64_at(&sig_bytes, 0);
    assert(sig@ =~= sig_bytes@);
    let pk_bytes = b64_decode_checked(&signed_key.public_key)?;
    let message = signed_message_bytes(&pk_bytes, signed_key.key_version);
    match ed25519_verify(&id, &message, &sig) {
        Some(ok) => Ok(ok),
        None => Err(CryptoError::Signature),
    }
}

/// Checks that a base64 Ed25519 identity public key holds 32 bytes.
pub fn import_identity_public_key(b64: &str) -> (r: Result<(), CryptoError>)
    ensures
        match decode_sized_spec(b64@, 32) {
            Ok(_) => r is Ok,
            Err(e) => r == Err::<(), CryptoError>(e),
        },
{
    let _ = decode_sized_spec_check(b64)?;
    Ok(())
}

fn decode_sized_spec_check(b64: &str) -> (r: Result<[u8; 32], CryptoError>)
    ensures
        match r {
            Ok(a) => decode_sized_spec(b64@, 32) == Ok::<Seq<u8>, CryptoError>(a@),
            Err(e) => decode_sized_spec(b64@, 32) == Err::<Seq<u8>, CryptoError>(e),
        },
{
    decode32(b64)
}

} // verus!

verus! {

/// Unicode `White_Space`, the set on which `str::trim` and
/// `str::split_whitespace` cut.
pub open spec fn is_ws(c: char) -> bool {
    let u = c as u32;
    (9 <= u <= 13) || u == 32 || u == 0x85 || u == 0xA0 || u == 0x1680 || (0x2000 <= u <= 0x200A) || u == 0x2028
        || u == 0x2029 || u == 0x202F || u == 0x205F || u == 0x3000
}

/// An ASCII letter or digit.
pub open spec fn is_ascii_alnum(c: char) -> bool {
    let u = c as u32;
    (48 <= u <= 57) || (65 <= u <= 90) || (97 <= u <= 122)
}

/// A character of base64 text, either alphabet, or padding.
pub open spec fn is_b64_like(c: char) -> bool {
    is_ascii_alnum(c) || c == '+' || c == '/' || c == '=' || c == '-' || c == '_'
}

/// Whether a word starts at position `i` of `s`.
pub open spec fn word_starts_at(s: Seq<char>, i: int) -> bool {
    !is_ws(s[i]) && (i == 0 || is_ws(s[i - 1]))
}

/// The number of words (maximal runs of non-whitespace) that start in `s[0..n]`.
pub open spec fn words_in(s: Seq<char>, n: int) -> nat
    decreases n,
{
    if n <= 0 {
        0
    } else {
        words_in(s, n - 1) + if word_starts_at(s, n - 1) {
            1nat
        } else {
            0nat
        }
    }
}

/// The position of the first non-whitespace character at or after `i`, or the length.
pub open spec fn first_non_ws(s: Seq<char>, i: int) -> int
    decreases s.len() - i,
{
    if i >= s.len() {
        s.len() as int
    } else if !is_ws(s[i]) {
        i
    } else {
        first_non_ws(s, i + 1)
    }
}

/// The position just past the last non-whitespace character before `j`, or 0.
pub open spec fn end_non_ws(s: Seq<char>, j: int) -> int
    decreases j,
{
    if j <= 0 {
        0
    } else if !is_ws(s[j - 1]) {
        j
    } else {
        end_non_ws(s, j - 1)
    }
}

proof fn lemma_end_non_ws_bound(s: Seq<char>, j: int)
    ensures
        end_non_ws(s, j) <= if j < 0 {
            0
        } else {
            j
        },
    decreases j,
{
    if j > 0 {
        lemma_end_non_ws_bound(s, j - 1);
    }
}

/// `s` without leading and trailing whitespace.
pub open spec fn trim_spec(s: Seq<char>) -> Seq<char> {
    let a = first_non_ws(s, 0);
    let b = end_non_ws(s, s.len() as int);
    if a < b {
        s.subrange(a, b)
    } else {
        Seq::empty()
    }
}

/// Whether a recovery phrase looks like it holds 128 bits of entropy: twelve
/// words or more, or (trimmed) 22 or more base64 characters, or 20 or more
/// ASCII letters and digits.
pub open spec fn entropy_ok(s: Seq<char>) -> bool {
    let t = trim_spec(s);
    ||| words_in(s, s.len() as int) >= 12
    ||| (t.len() >= 22 && forall|k: int| 0 <= k < t.len() ==> is_b64_like(#[trigger] t[k]))
    ||| (t.len() >= 20 && forall|k: int| 0 <= k < t.len() ==> is_ascii_alnum(#[trigger] t[k]))
}

fn ws_char(c: char) -> (r: bool)
    ensures
        r == is_ws(c),
{
    let u = c as u32;
    (9 <= u && u <= 13) || u == 32 || u == 0x85 || u == 0xA0 || u == 0x1680 || (0x2000 <= u && u <= 0x200A) || u
        == 0x2028 || u == 0x2029 || u == 0x202F || u == 0x205F || u == 0x3000
}

fn alnum_char(c: char) -> (r: bool)
    ensures
        r == is_ascii_alnum(c),
{
    let u = c as u32;
    (48 <= u && u <= 57) || (65 <= u && u <= 90) || (97 <= u && u <= 122)
}

fn b64_like_char(c: char) -> (r: bool)
    ensures
        r == is_b64_like(c),
{
    alnum_char(c) || c == '+' || c == '/' || c == '=' || c == '-' || c == '_'
}

/// A basic check that a recovery phrase holds enough entropy (about 128 bits);
/// see [`entropy_ok`].
pub fn validate_recovery_entropy(recovery_phrase: &str) -> (r: Result<bool, CryptoError>)
    ensures
        r == Ok::<bool, CryptoError>(entropy_ok(recovery_phrase@)),
{
    let ghost s = recovery_phrase@;
    let n = recovery_phrase.unicode_len();
    let mut words: usize = 0;
    let mut i: usize = 0;
    while i < n
        invariant
            n == s.len(),
            s == recovery_phrase@,
            i <= n,
            words == words_in(s, i as int),
            words <= i,
        decreases n - i,
    {
        let c = recovery_phrase.get_char(i);
        let starts = !ws_char(c) && (i == 0 || ws_char(recovery_phrase.get_char(i - 1)));
        if starts {
            words = words + 1;
        }
        i = i + 1;
    }
    if words >= 12 {
        return Ok(true);
    }
    let mut a: usize = 0;
    while a < n && ws_char(recovery_phrase.get_char(a))
        invariant
            n == s.len(),
            s == recovery_phrase@,
            a <= n,
            first_non_ws(s, 0) == first_non_ws(s, a as int),
        decreases n - a,
    {
        a = a + 1;
    }
    let mut b: usize = n;
    while b > a && ws_char(recovery_phrase.get_char(b - 1))
        invariant
            n == s.len(),
            s == recovery_phrase@,
            a <= b <= n,
            a < n ==> !is_ws(s[a as int]) && b > a,
            first_non_ws(s, 0) == a,
            end_non_ws(s, n as int) == end_non_ws(s, b as int),
        decreases b,
    {
        b = b - 1;
    }
    let ghost t = trim_spec(s);
    proof {
        if a < n {
            assert(end_non_ws(s, b as int) == b);
            assert(t =~= s.subrange(a as int, b as int));
        } else {
            lemma_end_non_ws_bound(s, n as int);
            assert(t.len() == 0);
        }
    }
    let len = b - a;
    let mut all_b64 = true;
    let mut all_alnum = true;
    let mut k: usize = a;
    while k < b
        invariant
            n == s.len(),
            s == recovery_phrase@,
            a <= k <= b <= n,
            len == b - a,
            t.len() == len,
            forall|j: int| 0 <= j < len ==> t[j] == s[a + j],
            all_b64 == forall|j: int| 0 <= j < k - a ==> is_b64_like(#[trigger] t[j]),
            all_alnum == forall|j: int| 0 <= j < k - a ==> is_ascii_alnum(#[trigger] t[j]),
        decreases b - k,
    {
        let c = recovery_phrase.get_char(k);
        proof {
            assert(t[k - a] == c);
        }
        if !b64_like_char(c) {
            all_b64 = false;
        }
        if !alnum_char(c) {
            all_alnum = false;
        }
        k = k + 1;
    }
    Ok((len >= 22 && all_b64) || (len >= 20 && all_alnum))
}

} // verus!
