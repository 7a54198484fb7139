//! Byte buffer helpers.

use vstd::prelude::*;

verus! {

/// Big-endian bytes of a 16-bit value.
pub open spec fn be16_bytes(x: u16) -> Seq<u8> {
    seq![(x as int / 256) as u8, (x as int % 256) as u8]
}

/// A vector holding the bytes of `s`.
pub fn slice_to_vec(s: &[u8]) -> (v: Vec<u8>)
    ensures
        v@ == s@,
{
    let mut v: Vec<u8> = Vec::new();
    v.extend_from_slice(s);
    v
}

/// Copies `src` into `buf` starting at offset `start` (as
/// `buf[start..start + src.len()].copy_from_slice(src)` does); the other
/// bytes of `buf` keep their values.
pub fn copy_into(buf: &mut [u8], start: usize, src: &[u8])
    requires
        start + src@.len() <= old(buf)@.len(),
    ensures
        final(buf)@.len() == old(buf)@.len(),
        final(buf)@.subrange(start as int, start + src@.len()) == src@,
        forall|j: int|
            0 <= j < old(buf)@.len() && !(start <= j < start + src@.len()) ==> #[trigger] final(buf)@[j] == old(buf)@[j],
{
    let n = src.len();
    let total = buf.len();
    let mut i: usize = 0;
    while i < n
        invariant
            n == src@.len(),
            start + n <= buf@.len(),
            buf@.len() == old(buf)@.len(),
            buf@.len() == total,
            i <= n,
            forall|j: int| 0 <= j < i ==> #[trigger] buf@[start + j] == src@[j],
            forall|j: int|
                0 <= j < old(buf)@.len() && !(start <= j < start + i) ==> #[trigger] buf@[j]
                    == old(buf)@[j],
        decreases n - i,
    {
        buf[start + i] = src[i];
        i = i + 1;
    }
    assert(buf@.subrange(start as int, start + n) =~= src@) by {
        assert forall|j: int| 0 <= j < n implies buf@.subrange(start as int, start + n)[j]
            == src@[j] by {
            assert(buf@[start + j] == src@[j]);
        }
    }
}

} // verus!
