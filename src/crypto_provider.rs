//! Key generation for the Diffie-Hellman ratchet.
use vstd::prelude::*;
use crate::crypto::is_x25519_pair;
use crate::types::KeyPair;

verus! {

/// A fresh X25519 key pair for a ratchet step.
pub fn generate_dh_keypair() -> (r: KeyPair)
    ensures
        is_x25519_pair(r),
        r.public_key@.len() == 44 && r.private_key@.len() == 44,
{
    crate::crypto::generate_key_pair(false)
}

} // verus!
