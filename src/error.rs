use vstd::prelude::*;

verus! {

/// The kinds of failure that the library reports.
#[derive(Debug, Clone, Copy, PartialEq, Eq, Structural)]
pub enum CryptoError {
    /// Base64 text that does not decode.
    Base64,
    /// A key, nonce or signature of the wrong byte length; holds the length received.
    InvalidKeyLen(usize),
    /// An AEAD failure: tag mismatch, wrong key, truncated input, or a missing chain.
    Aead,
    /// Argon2id parameters out of range, or the computation failed.
    Argon2,
    /// An Ed25519 key that cannot be imported, or a signing failure.
    Signature,
    /// A message counter that the receiving chain has already moved past.
    OldMessage,
    /// A request that would skip more message keys than the cache may hold.
    SkipLimitExceeded,
    /// A chain counter that cannot advance any further.
    CounterOverflow,
    /// A session snapshot of a format version that this library does not read.
    UnsupportedVersion(u32),
}

} // verus!
