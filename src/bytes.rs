//! Fixed-size byte arrays cut out of, and joined into, growable buffers.
use vstd::prelude::*;

verus! {

/// The 32 bytes of `v` that start at `start`.
pub(crate) fn array32_at(v: &[u8], start: usize) -> (r: [u8; 32])
    requires
        start + 32 <= v@.len(),
    ensures
        r@ == v@.subrange(start as int, start + 32),
{
    let mut r = [0u8; 32];
    let len = v.len();
    let mut i: usize = 0;
    while i < 32
        invariant
            i <= 32,
            len == v@.len(),
            start + 32 <= v@.len(),
            forall|j: int| 0 <= j < i ==> r@[j] == v@[start + j],
        decreases 32 - i,
    {
        r[i] = v[start + i];
        i = i + 1;
    }
    assert(r@ =~= v@.subrange(start as int, start + 32));
    r
}

/// The 12 bytes of `v` that start at `start`.
pub(crate) fn array12_at(v: &[u8], start: usize) -> (r: [u8; 12])
    requires
        start + 12 <= v@.len(),
    ensures
        r@ == v@.subrange(start as int, start + 12),
{
    let mut r = [0u8; 12];
    let len = v.len();
    let mut i: usize = 0;
    while i < 12
        invariant
            i <= 12,
            len == v@.len(),
            start + 12 <= v@.len(),
            forall|j: int| 0 <= j < i ==> r@[j] == v@[start + j],
        decreases 12 - i,
    {
        r[i] = v[start + i];
        i = i + 1;
    }
    assert(r@ =~= v@.subrange(start as int, start + 12));
    r
}

/// The 64 bytes of `v` that start at `start`.
pub(crate) fn array64_at(v: &[u8], start: usize) -> (r: [u8; 64])
    requires
        start + 64 <= v@.len(),
    ensures
        r@ == v@.subrange(start as int, start + 64),
{
    let mut r = [0u8; 64];
    let len = v.len();
    let mut i: usize = 0;
    while i < 64
        invariant
            i <= 64,
            len == v@.len(),
            start + 64 <= v@.len(),
            forall|j: int| 0 <= j < i ==> r@[j] == v@[start + j],
        decreases 64 - i,
    {
        r[i] = v[start + i];
        i = i + 1;
    }
    assert(r@ =~= v@.subrange(start as int, start + 64));
    r
}

/// `out` followed by all of `tail`.
pub(crate) fn append_bytes(out: &mut Vec<u8>, tail: &[u8])
    ensures
        final(out)@ == old(out)@ + tail@,
{
    let ghost start = out@;
    let mut i: usize = 0;
    while i < tail.len()
        invariant
            i <= tail@.len(),
            out@ == start + tail@.subrange(0, i as int),
        decreases tail@.len() - i,
    {
        out.push(tail[i]);
        i = i + 1;
        assert(out@ =~= start + tail@.subrange(0, i as int));
    }
    assert(tail@.subrange(0, tail@.len() as int) =~= tail@);
}

/// A fresh buffer holding the bytes of `src`.
pub(crate) fn bytes_to_vec(src: &[u8]) -> (r: Vec<u8>)
    ensures
        r@ == src@,
{
    let mut r: Vec<u8> = Vec::new();
    append_bytes(&mut r, src);
    assert(r@ =~= src@);
    r
}

} // verus!

verus! {

/// Whether two byte strings are equal.
pub(crate) fn bytes_eq(a: &[u8], b: &[u8]) -> (r: bool)
    ensures
        r == (a@ == b@),
{
    if a.len() != b.len() {
        return false;
    }
    let mut i: usize = 0;
    while i < a.len()
        invariant
            a@.len() == b@.len(),
            i <= a@.len(),
            forall|j: int| 0 <= j < i ==> a@[j] == b@[j],
        decreases a@.len() - i,
    {
        if a[i] != b[i] {
            return false;
        }
        i = i + 1;
    }
    assert(a@ =~= b@);
    true
}

} // verus!
