//! X3DH key agreement.
//!
//! The initiator computes `DH(IK_A, SPK_B) ‖ DH(EK_A, IK_B) ‖ DH(EK_A, SPK_B)`,
//! and `‖ DH(EK_A, OPK_B)` when the bundle holds a one-time pre-key; the
//! responder computes the same four values from its own side. HKDF-SHA256 with
//! an empty salt and info "X3DH" turns them into the 32-byte shared secret.
use vstd::prelude::*;
use crate::bundle::PreKeyBundle;
use crate::crypto::{import_key_spec, is_x25519_pair};
use crate::error::CryptoError;
use crate::primitives::{hkdf_sha256, hkdf_sha256_of, x25519_dh, x25519_dh_of, x25519_public_of};
use crate::types::KeyPair;

verus! {

/// The secret that X3DH agrees on.
#[derive(Debug, Clone)]
pub struct SharedSecret {
    pub bytes: [u8; 32],
}

impl Drop for SharedSecret {
    /// The secret bytes are overwritten with zeros when the value is dropped.
    fn drop(&mut self)
        opens_invariants none
        no_unwind
    {
        crate::primitives::scrub(&mut self.bytes);
    }
}

impl SharedSecret {
    pub fn new(bytes: [u8; 32]) -> (r: Self)
        ensures
            r.bytes == bytes,
    {
        SharedSecret { bytes }
    }

    pub fn as_bytes(&self) -> (r: &[u8; 32])
        ensures
            *r == self.bytes,
    {
        &self.bytes
    }

    pub fn to_vec(&self) -> (r: Vec<u8>)
        ensures
            r@ == self.bytes@,
    {
        crate::bytes::bytes_to_vec(&self.bytes)
    }
}

/// The ASCII text "X3DH", the HKDF info of the agreement.
pub open spec fn x3dh_info() -> Seq<u8> {
    seq![88u8, 51, 68, 72]
}

const X3DH_INFO: [u8; 4] = [88u8, 51, 68, 72];

/// The shared secret of the concatenated Diffie-Hellman outputs.
pub open spec fn x3dh_secret_of(dh_outputs: Seq<u8>) -> Seq<u8> {
    hkdf_sha256_of(dh_outputs, x3dh_info(), 32)
}

/// The concatenated Diffie-Hellman outputs of the four (or three) pairs.
pub open spec fn dh_concat(dh1: Seq<u8>, dh2: Seq<u8>, dh3: Seq<u8>, dh4: Option<Seq<u8>>) -> Seq<u8> {
    match dh4 {
        Some(d) => dh1 + dh2 + dh3 + d,
        None => dh1 + dh2 + dh3,
    }
}

/// What [`x3dh_initiate`] returns: the keys of [`x3dh_keys_spec`], then the
/// bundle's signature, which must decode to 64 bytes.
pub open spec fn x3dh_initiate_spec(my_identity_sk: Seq<char>, my_ephemeral_sk: Seq<char>, bundle: PreKeyBundle) -> Result<
    Seq<u8>,
    CryptoError,
> {
    match x3dh_keys_spec(my_identity_sk, my_ephemeral_sk, bundle) {
        Err(e) => Err(e),
        Ok(sk) => match crate::crypto::decode_sized_spec(bundle.signed_prekey_signature@, 64) {
            Err(e) => Err(e),
            Ok(_) => Ok(sk),
        },
    }
}

/// The initiator's secret from its keys and the bundle's keys, imported in the
/// order IK_A, SPK_B, EK_A, IK_B, then OPK_B.
pub open spec fn x3dh_keys_spec(my_identity_sk: Seq<char>, my_ephemeral_sk: Seq<char>, bundle: PreKeyBundle) -> Result<
    Seq<u8>,
    CryptoError,
> {
    match import_key_spec(my_identity_sk) {
        Err(e) => Err(e),
        Ok(ik_a) => match import_key_spec(bundle.signed_prekey@) {
            Err(e) => Err(e),
            Ok(spk_b) => match import_key_spec(my_ephemeral_sk) {
                Err(e) => Err(e),
                Ok(ek_a) => match import_key_spec(bundle.identity_key@) {
                    Err(e) => Err(e),
                    Ok(ik_b) => {
                        let d1 = x25519_dh_of(ik_a, spk_b);
                        let d2 = x25519_dh_of(ek_a, ik_b);
                        let d3 = x25519_dh_of(ek_a, spk_b);
                        match bundle.one_time_prekey {
                            None => Ok(x3dh_secret_of(dh_concat(d1, d2, d3, None))),
                            Some(opk) => match import_key_spec(opk@) {
                                Err(e) => Err(e),
                                Ok(opk_b) => Ok(
                                    x3dh_secret_of(dh_concat(d1, d2, d3, Some(x25519_dh_of(ek_a, opk_b)))),
                                ),
                            },
                        }
                    },
                },
            },
        },
    }
}

/// What [`x3dh_respond_with_otk`] returns: the keys are imported in the order
/// SPK_B, IK_A, IK_B, EK_A, then OPK_B.
pub open spec fn x3dh_respond_spec(
    my_identity_sk: Seq<char>,
    my_signed_prekey_sk: Seq<char>,
    my_one_time_prekey_sk: Option<Seq<char>>,
    their_identity: Seq<char>,
    their_ephemeral: Seq<char>,
) -> Result<Seq<u8>, CryptoError> {
    match import_key_spec(my_signed_prekey_sk) {
        Err(e) => Err(e),
        Ok(spk_b) => match import_key_spec(their_identity) {
            Err(e) => Err(e),
            Ok(ik_a) => match import_key_spec(my_identity_sk) {
                Err(e) => Err(e),
                Ok(ik_b) => match import_key_spec(their_ephemeral) {
                    Err(e) => Err(e),
                    Ok(ek_a) => {
                        let d1 = x25519_dh_of(spk_b, ik_a);
                        let d2 = x25519_dh_of(ik_b, ek_a);
                        let d3 = x25519_dh_of(spk_b, ek_a);
                        match my_one_time_prekey_sk {
                            None => Ok(x3dh_secret_of(dh_concat(d1, d2, d3, None))),
                            Some(opk) => match import_key_spec(opk) {
                                Err(e) => Err(e),
                                Ok(opk_b) => Ok(
                                    x3dh_secret_of(dh_concat(d1, d2, d3, Some(x25519_dh_of(opk_b, ek_a)))),
                                ),
                            },
                        }
                    },
                },
            },
        },
    }
}

/// The 32-byte key of a base64 text.
fn key_of(text: &str) -> (r: Result<[u8; 32], CryptoError>)
    ensures
        match r {
            Ok(a) => import_key_spec(text@) == Ok::<Seq<u8>, CryptoError>(a@),
            Err(e) => import_key_spec(text@) == Err::<Seq<u8>, CryptoError>(e),
        },
{
    crate::crypto::import_public_key_b64(text)
}

/// HKDF over the concatenated outputs.
fn derive_secret(d1: &[u8; 32], d2: &[u8; 32], d3: &[u8; 32], d4: Option<[u8; 32]>) -> (r: SharedSecret)
    ensures
        r.bytes@ == x3dh_secret_of(
            dh_concat(
                d1@,
                d2@,
                d3@,
                match d4 {
                    Some(d) => Some(d@),
                    None => None,
                },
            ),
        ),
{
    let mut dh_output = crate::bytes::bytes_to_vec(d1);
    crate::bytes::append_bytes(&mut dh_output, d2);
    crate::bytes::append_bytes(&mut dh_output, d3);
    match d4 {
        Some(d) => {
            crate::bytes::append_bytes(&mut dh_output, &d);
        },
        None => {},
    }
    let okm = hkdf_sha256(&dh_output, &X3DH_INFO, 32);
    assert(X3DH_INFO@ =~= x3dh_info());
    let bytes = crate::bytes::array32_at(&okm, 0);
    assert(bytes@ =~= okm@);
    SharedSecret { bytes }
}

/// The initiator's side of X3DH, from its identity private key, an ephemeral
/// key pair and the responder's bundle. Every key of the bundle must be 32
/// bytes and its signature 64 bytes (else `InvalidKeyLen`); whether the
/// signature verifies is not checked here. [`x3dh_initiate_verified`] is the
/// entry point that checks it, as a session must before using the secret.
pub fn x3dh_initiate(my_identity_sk: &str, my_ephemeral: &KeyPair, their_bundle: &PreKeyBundle) -> (r: Result<
    SharedSecret,
    CryptoError,
>)
    ensures
        match r {
            Ok(s) => x3dh_initiate_spec(my_identity_sk@, my_ephemeral.private_key@, *their_bundle) == Ok::<
                Seq<u8>,
                CryptoError,
            >(s.bytes@),
            Err(e) => x3dh_initiate_spec(my_identity_sk@, my_ephemeral.private_key@, *their_bundle) == Err::<
                Seq<u8>,
                CryptoError,
            >(e),
        },
{
    let ik_a = key_of(my_identity_sk)?;
    let spk_b = key_of(&their_bundle.signed_prekey)?;
    let ek_a = key_of(&my_ephemeral.private_key)?;
    let ik_b = key_of(&their_bundle.identity_key)?;
    let d1 = x25519_dh(ik_a, spk_b);
    let d2 = x25519_dh(ek_a, ik_b);
    let d3 = x25519_dh(ek_a, spk_b);
    let d4 = match &their_bundle.one_time_prekey {
        Some(opk) => {
            let opk_b = key_of(opk)?;
            Some(x25519_dh(ek_a, opk_b))
        },
        None => None,
    };
    let sig = crate::crypto::b64_decode_checked(&their_bundle.signed_prekey_signature)?;
    if sig.len() != 64 {
        return Err(CryptoError::InvalidKeyLen(sig.len()));
    }
    assert(crate::crypto::decode_sized_spec(their_bundle.signed_prekey_signature@, 64) is Ok);
    let secret = derive_secret(&d1, &d2, &d3, d4);
    Ok(secret)
}

/// The initiator's side of X3DH after checking the bundle: the signed pre-key's
/// signature over `SPK_B ‖ le(key_version)` must verify under the responder's
/// Ed25519 identity key (base64), else the agreement is refused with
/// `Signature`.
pub fn x3dh_initiate_verified(
    my_identity_sk: &str,
    my_ephemeral: &KeyPair,
    their_bundle: &PreKeyBundle,
    their_signing_key_b64: &str,
    key_version: u32,
) -> (r: Result<SharedSecret, CryptoError>)
    ensures
        match crate::crypto::verify_fields_spec(
            their_bundle.signed_prekey@,
            their_bundle.signed_prekey_signature@,
            key_version,
            their_signing_key_b64@,
        ) {
            Err(e) => r == Err::<SharedSecret, CryptoError>(e),
            Ok(false) => r == Err::<SharedSecret, CryptoError>(CryptoError::Signature),
            Ok(true) => match r {
                Ok(s) => x3dh_initiate_spec(my_identity_sk@, my_ephemeral.private_key@, *their_bundle) == Ok::<
                    Seq<u8>,
                    CryptoError,
                >(s.bytes@),
                Err(e) => x3dh_initiate_spec(my_identity_sk@, my_ephemeral.private_key@, *their_bundle) == Err::<
                    Seq<u8>,
                    CryptoError,
                >(e),
            },
        },
{
    let signed = crate::types::SignedPublicKey {
        public_key: their_bundle.signed_prekey.clone(),
        signature: their_bundle.signed_prekey_signature.clone(),
        key_version,
        signed_at: String::new(),
    };
    let ok = crate::crypto::verify_signed_public_key(&signed, their_signing_key_b64)?;
    if !ok {
        return Err(CryptoError::Signature);
    }
    x3dh_initiate(my_identity_sk, my_ephemeral, their_bundle)
}

/// The responder's side of X3DH without a one-time pre-key.
pub fn x3dh_respond(my_identity_sk: &str, my_signed_prekey_sk: &str, their_identity: &str, their_ephemeral: &str) -> (r:
    Result<SharedSecret, CryptoError>)
    ensures
        match r {
            Ok(s) => x3dh_respond_spec(my_identity_sk@, my_signed_prekey_sk@, None, their_identity@, their_ephemeral@)
                == Ok::<Seq<u8>, CryptoError>(s.bytes@),
            Err(e) => x3dh_respond_spec(my_identity_sk@, my_signed_prekey_sk@, None, their_identity@, their_ephemeral@)
                == Err::<Seq<u8>, CryptoError>(e),
        },
{
    x3dh_respond_with_otk(my_identity_sk, my_signed_prekey_sk, None, their_identity, their_ephemeral)
}

/// The responder's side of X3DH, with the one-time pre-key's private key when
/// the initiator used one.
pub fn x3dh_respond_with_otk(
    my_identity_sk: &str,
    my_signed_prekey_sk: &str,
    my_one_time_prekey_sk: Option<&str>,
    their_identity: &str,
    their_ephemeral: &str,
) -> (r: Result<SharedSecret, CryptoError>)
    ensures
        ({
            let otk = match my_one_time_prekey_sk {
                Some(t) => Some(t@),
                None => None,
            };
            match r {
                Ok(s) => x3dh_respond_spec(my_identity_sk@, my_signed_prekey_sk@, otk, their_identity@, their_ephemeral@)
                    == Ok::<Seq<u8>, CryptoError>(s.bytes@),
                Err(e) => x3dh_respond_spec(my_identity_sk@, my_signed_prekey_sk@, otk, their_identity@, their_ephemeral@)
                    == Err::<Seq<u8>, CryptoError>(e),
            }
        }),
{
    let spk_b = key_of(my_signed_prekey_sk)?;
    let ik_a = key_of(their_identity)?;
    let ik_b = key_of(my_identity_sk)?;
    let ek_a = key_of(their_ephemeral)?;
    let d1 = x25519_dh(spk_b, ik_a);
    let d2 = x25519_dh(ik_b, ek_a);
    let d3 = x25519_dh(spk_b, ek_a);
    let d4 = match my_one_time_prekey_sk {
        Some(otk) => {
            let opk_b = key_of(otk)?;
            Some(x25519_dh(opk_b, ek_a))
        },
        None => None,
    };
    Ok(derive_secret(&d1, &d2, &d3, d4))
}

/// X3DH agreement: for X25519 key pairs IK_A, EK_A, IK_B, SPK_B and an optional
/// OPK_B, the initiator (with a bundle that publishes IK_B, SPK_B, OPK_B and a
/// 64-byte signature) and the responder derive the same shared secret, and
/// neither fails.
pub proof fn lemma_x3dh_agreement(
    ik_a: KeyPair,
    ek_a: KeyPair,
    ik_b: KeyPair,
    spk_b: KeyPair,
    opk_b: Option<KeyPair>,
    bundle: PreKeyBundle,
)
    requires
        is_x25519_pair(ik_a),
        is_x25519_pair(ek_a),
        is_x25519_pair(ik_b),
        is_x25519_pair(spk_b),
        opk_b matches Some(o) ==> is_x25519_pair(o),
        bundle.identity_key@ == ik_b.public_key@,
        bundle.signed_prekey@ == spk_b.public_key@,
        match opk_b {
            Some(o) => bundle.one_time_prekey matches Some(t) && t@ == o.public_key@,
            None => bundle.one_time_prekey is None,
        },
        crate::crypto::decode_sized_spec(bundle.signed_prekey_signature@, 64) is Ok,
    ensures
        x3dh_initiate_spec(ik_a.private_key@, ek_a.private_key@, bundle) is Ok,
        x3dh_initiate_spec(ik_a.private_key@, ek_a.private_key@, bundle) == x3dh_respond_spec(
            ik_b.private_key@,
            spk_b.private_key@,
            match opk_b {
                Some(o) => Some(o.private_key@),
                None => None,
            },
            ik_a.public_key@,
            ek_a.public_key@,
        ),
{
    let a = import_key_spec(ik_a.private_key@)->Ok_0;
    let e = import_key_spec(ek_a.private_key@)->Ok_0;
    let b = import_key_spec(ik_b.private_key@)->Ok_0;
    let s = import_key_spec(spk_b.private_key@)->Ok_0;
    assert(x25519_dh_of(a, x25519_public_of(s)) == x25519_dh_of(s, x25519_public_of(a)));
    assert(x25519_dh_of(e, x25519_public_of(b)) == x25519_dh_of(b, x25519_public_of(e)));
    assert(x25519_dh_of(e, x25519_public_of(s)) == x25519_dh_of(s, x25519_public_of(e)));
    match opk_b {
        Some(o) => {
            let k = import_key_spec(o.private_key@)->Ok_0;
            assert(x25519_dh_of(e, x25519_public_of(k)) == x25519_dh_of(k, x25519_public_of(e)));
        },
        None => {},
    }
}

} // verus!
