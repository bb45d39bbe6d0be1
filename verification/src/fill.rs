//! The pattern that files are filled with.

use vstd::prelude::*;

verus! {

/// The byte that the pattern repeats. It is not zero.
pub const FILL_BYTE: u8 = 0xab;

/// Fills `bytes` with a non-zero repeating byte pattern.
pub fn fill_pattern(bytes: &mut [u8])
    ensures
        final(bytes)@ == Seq::new(old(bytes)@.len(), |i: int| FILL_BYTE),
        forall|i: int| 0 <= i < final(bytes)@.len() ==> #[trigger] final(bytes)@[i] != 0,
{
    let count: usize = bytes.len();
    let mut i: usize = 0;
    while i < count
        invariant
            i <= count,
            count == bytes@.len(),
            bytes@.len() == old(bytes)@.len(),
            forall|j: int| 0 <= j < i ==> #[trigger] bytes@[j] == FILL_BYTE,
        decreases count - i,
    {
        bytes[i] = FILL_BYTE;
        i = i + 1;
    }
    assert(bytes@ =~= Seq::new(old(bytes)@.len(), |i: int| FILL_BYTE));
}

} // verus!
