//! Byte-sequence helpers: fixed-size arrays cut out of vectors, and vectors
//! built from slices.

use vstd::prelude::*;

verus! {

/// The `N` bytes of `v` that start at `off`, as an array.
pub fn array_at<const N: usize>(v: &[u8], off: usize) -> (a: [u8; N])
    requires
        off + N <= v.len(),
    ensures
        a@ == v@.subrange(off as int, off + N),
{
    let mut a: [u8; N] = vstd::array::array_fill_for_copy_types::<u8, N>(0u8);
    let mut i: usize = 0;
    while i < N
        invariant
            i <= N,
            off + N <= v.len(),
            a@.len() == N,
            forall|k: int| 0 <= k < i ==> a@[k] == v@[off + k],
        decreases N - i,
    {
        a[i] = v[off + i];
        i = i + 1;
    }
    assert(a@ == v@.subrange(off as int, off + N));
    a
}

/// Appends all of `src` to `dst`.
pub fn extend_from(dst: &mut Vec<u8>, src: &[u8])
    ensures
        final(dst)@ == old(dst)@ + src@,
{
    let mut i: usize = 0;
    while i < src.len()
        invariant
            i <= src@.len(),
            dst@ == old(dst)@ + src@.take(i as int),
        decreases src@.len() - i,
    {
        assert(src@.take(i + 1) == src@.take(i as int).push(src@[i as int]));
        dst.push(src[i]);
        i = i + 1;
    }
    assert(src@.take(src@.len() as int) == src@);
}

/// A vector holding the bytes of `src`.
pub fn to_vec(src: &[u8]) -> (v: Vec<u8>)
    ensures
        v@ == src@,
{
    let mut v: Vec<u8> = Vec::new();
    extend_from(&mut v, src);
    v
}

} // verus!
