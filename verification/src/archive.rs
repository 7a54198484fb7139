//! Recognizing the archives shard templates are imported from.

use vstd::prelude::*;

verus! {

/// The two bytes every gzip stream begins with.
pub const GZIP_MAGIC_HEADER: [u8; 2] = [0x1f, 0x8b];

/// Whether the first two bytes of a file mark a gzip'd archive.
pub fn is_gzip(hdr: [u8; 2]) -> (r: bool)
    ensures
        r == (hdr[0] == 0x1f && hdr[1] == 0x8b),
{
    hdr[0] == 0x1f && hdr[1] == 0x8b
}

} // verus!
