//! The plain values the window's state is made of: a count of audio frames,
//! and the content hash a track is known by.

use vstd::prelude::*;

verus! {

/// A count of audio frames, or a position counted in frames from the start,
/// which may lie before the start.
#[derive(Debug, Clone, Copy, PartialEq, Eq, Structural)]
pub struct Samples(pub i64);

/// The content hash a track is known by: a digest of the bytes of its audio
/// file, so two files with the same bytes have the same hash wherever they
/// lie.
#[derive(Debug, Clone, Copy, PartialEq, Eq, Hash)]
pub struct ContentHash(pub [u8; 32]);

impl View for ContentHash {
    type V = Seq<u8>;

    open spec fn view(&self) -> Seq<u8> {
        self.0@
    }
}

impl ContentHash {
    /// Whether `self` and `other` are the same hash, byte for byte.
    pub fn same(&self, other: &ContentHash) -> (r: bool)
        ensures
            r == (self@ == other@),
    {
        let mut i: usize = 0;
        while i < 32
            invariant
                i <= 32,
                self.0@.len() == 32,
                other.0@.len() == 32,
                forall|k: int| 0 <= k < i ==> self.0@[k] == other.0@[k],
            decreases 32 - i,
        {
            if self.0[i] != other.0[i] {
                return false;
            }
            i = i + 1;
        }
        assert(self.0@ =~= other.0@);
        true
    }
}

}
