//! Block header hashes, as far as proof-of-work validation reads them.

use vstd::prelude::*;

verus! {

/// The little-endian integer denoted by a byte sequence.
pub open spec fn le_bytes_value(s: Seq<u8>) -> nat
    decreases s.len(),
{
    if s.len() == 0 {
        0
    } else {
        s[0] as nat + 256 * le_bytes_value(s.drop_first())
    }
}

/// A block header hash: 32 bytes, read as a little-endian 256-bit integer
/// when it is compared with a difficulty threshold.
#[derive(Clone, Copy, Debug, PartialEq, Eq)]
pub struct Hash(pub [u8; 32]);

impl Hash {
    /// The integer that this hash denotes.
    pub open spec fn value(&self) -> nat {
        le_bytes_value(self.0@)
    }
}

/// An all-zero byte sequence denotes zero.
pub proof fn lemma_zero_bytes_value(s: Seq<u8>)
    requires
        forall|i: int| 0 <= i < s.len() ==> s[i] == 0,
    ensures
        le_bytes_value(s) == 0,
    decreases s.len(),
{
    if s.len() > 0 {
        lemma_zero_bytes_value(s.drop_first());
    }
}

} // verus!
