//! Copies that the kernel may carry out in several parts.

use vstd::prelude::*;

verus! {

/// The part of a copy that is asked for next: all that is left of it.
#[derive(Debug, Clone, Copy, PartialEq, Eq, Structural)]
pub struct Chunk {
    /// Where the part begins in the source and in the destination.
    pub offset: usize,
    /// The number of bytes in it.
    pub len: usize,
}

/// A call moved nothing or failed.
#[derive(Debug, Clone, Copy, PartialEq, Eq, Structural)]
pub struct TransferError {
    /// The number of bytes moved by the calls before it.
    pub done: usize,
}

/// A copy of `size` bytes by calls that are told where to go on.
#[derive(Debug, Clone, Copy, PartialEq, Eq, Structural)]
pub struct Transfer {
    pub size: usize,
    pub done: usize,
}

impl Transfer {
    pub fn new(size: usize) -> (transfer: Self)
        ensures
            transfer == (Transfer { size, done: 0 }),
    {
        Transfer { size, done: 0 }
    }

    /// What to ask for next, or `None` where the copy is complete.
    pub open spec fn pending(self) -> Option<Chunk> {
        if self.done < self.size {
            Some(Chunk { offset: self.done, len: (self.size - self.done) as usize })
        } else {
            None
        }
    }

    /// What to ask for next, or `None` where the copy is complete.
    pub fn next_chunk(&self) -> (chunk: Option<Chunk>)
        ensures
            chunk == self.pending(),
            chunk is Some <==> self.done < self.size,
            chunk matches Some(c) ==> c.offset == self.done && c.offset + c.len == self.size,
    {
        if self.done < self.size {
            Some(Chunk { offset: self.done, len: self.size - self.done })
        } else {
            None
        }
    }

    /// The copy after one more call, which moved `count` bytes.
    pub open spec fn plus(self, count: nat) -> Self {
        Transfer { size: self.size, done: (self.done + count) as usize }
    }

    /// Takes in what the call for the pending chunk returned: the number of bytes
    /// it moved, or, on failure, a number that is not positive.
    pub fn advance(&mut self, moved: isize) -> (outcome: Result<(), TransferError>)
        requires
            old(self).done + moved <= usize::MAX,
        ensures
            moved > 0 ==> outcome is Ok && *final(self) == old(self).plus(moved as nat),
            moved > 0 ==> final(self).done == old(self).done + moved,
            final(self).size == old(self).size,
            moved <= 0 ==> *final(self) == *old(self) && outcome == Err::<(), TransferError>(
                TransferError { done: old(self).done },
            ),
    {
        if moved > 0 {
            self.done = self.done + moved as usize;
            Ok(())
        } else {
            Err(TransferError { done: self.done })
        }
    }

    /// The copy after calls that moved `counts` bytes, one after the other.
    pub open spec fn after(self, counts: Seq<nat>) -> Self
        decreases counts.len(),
    {
        if counts.len() == 0 {
            self
        } else {
            self.after(counts.drop_last()).plus(counts.last())
        }
    }

    /// Whether a call for the pending chunk can move `count` bytes: at least one,
    /// and no more than it was asked for.
    pub open spec fn can_move(self, count: nat) -> bool {
        match self.pending() {
            Some(chunk) => 0 < count <= chunk.len,
            None => false,
        }
    }

    /// Whether calls, one after the other, can move `counts` bytes.
    pub open spec fn possible(self, counts: Seq<nat>) -> bool {
        forall|i: int|
            0 <= i < counts.len() ==> self.after(counts.take(i)).can_move(#[trigger] counts[i])
    }
}

/// A copy of `size` bytes by calls that keep their own position.
#[derive(Debug, Clone, Copy, PartialEq, Eq, Structural)]
pub struct Countdown {
    pub left: usize,
}

impl Countdown {
    pub fn new(size: usize) -> (countdown: Self)
        ensures
            countdown == (Countdown { left: size }),
    {
        Countdown { left: size }
    }

    /// The number of bytes to ask for next, or `None` where the copy is complete.
    pub fn next_len(&self) -> (len: Option<usize>)
        ensures
            len == (if self.left > 0 {
                Some(self.left)
            } else {
                None
            }),
    {
        if self.left > 0 {
            Some(self.left)
        } else {
            None
        }
    }

    /// The copy after one more call, which moved `count` bytes.
    pub open spec fn minus(self, count: nat) -> Self {
        Countdown { left: (self.left - count) as usize }
    }

    /// The copy after calls that moved `counts` bytes, one after the other.
    pub open spec fn after(self, counts: Seq<nat>) -> Self
        decreases counts.len(),
    {
        if counts.len() == 0 {
            self
        } else {
            self.after(counts.drop_last()).minus(counts.last())
        }
    }

    /// Takes in what the call returned: the number of bytes it moved, which is no
    /// more than what was left, or, on failure, a number that is not positive.
    /// Returns whether the call moved anything.
    pub fn advance(&mut self, moved: isize) -> (progress: bool)
        requires
            moved <= old(self).left,
        ensures
            progress == (moved > 0),
            moved > 0 ==> *final(self) == old(self).minus(moved as nat),
            moved > 0 ==> final(self).left == old(self).left - moved,
            moved <= 0 ==> *final(self) == *old(self),
    {
        if moved > 0 {
            self.left = self.left - moved as usize;
            true
        } else {
            false
        }
    }
}

/// However the kernel cuts a copy into parts, the copy never goes past its end,
/// and it takes no more calls than there are bytes.
pub proof fn transfer_stays_inside(transfer: Transfer, counts: Seq<nat>)
    requires
        transfer.done <= transfer.size,
        transfer.possible(counts),
    ensures
        transfer.after(counts).size == transfer.size,
        transfer.done + counts.len() <= transfer.after(counts).done <= transfer.size,
    decreases counts.len(),
{
    if counts.len() > 0 {
        let less = counts.drop_last();
        assert(counts.take(counts.len() - 1) =~= less);
        possible_before(transfer, counts, counts.len() - 1);
        transfer_stays_inside(transfer, less);
        assert(transfer.after(less).can_move(counts[counts.len() - 1]));
    }
}

proof fn possible_before(transfer: Transfer, counts: Seq<nat>, k: int)
    requires
        0 <= k <= counts.len(),
        transfer.possible(counts),
    ensures
        transfer.possible(counts.take(k)),
{
    assert forall|i: int| 0 <= i < k implies transfer.after(counts.take(k).take(i)).can_move(
        #[trigger] counts.take(k)[i],
    ) by {
        assert(counts.take(k).take(i) =~= counts.take(i));
        assert(counts[i] == counts.take(k)[i]);
    }
}

/// The copy before call `i` has not moved more than the copy before call `j`.
proof fn done_grows(transfer: Transfer, counts: Seq<nat>, i: int, j: int)
    requires
        transfer.done <= transfer.size,
        transfer.possible(counts),
        0 <= i <= j <= counts.len(),
    ensures
        transfer.after(counts.take(i)).done <= transfer.after(counts.take(j)).done,
        i < j ==> transfer.after(counts.take(i)).done + counts[i] <= transfer.after(
            counts.take(j),
        ).done,
    decreases j - i,
{
    if i < j {
        possible_before(transfer, counts, j - 1);
        transfer_stays_inside(transfer, counts.take(j - 1));
        assert(counts.take(j).drop_last() =~= counts.take(j - 1));
        assert(transfer.after(counts.take(j - 1)).can_move(counts[j - 1]));
        done_grows(transfer, counts, i, j - 1);
    }
}

/// The part that a copy asks for next begins where the calls before it ended and
/// reaches to the end of the copy. There is one as long as bytes are missing.
pub proof fn next_chunk_goes_on(transfer: Transfer)
    ensures
        transfer.pending() is Some <==> transfer.done < transfer.size,
        transfer.pending() matches Some(chunk) ==> chunk.offset == transfer.done && chunk.offset
            + chunk.len == transfer.size,
{
}

/// A call that moves `count` bytes leaves the rest: the part that is asked for next
/// begins `count` bytes later and ends where the one before it ended.
pub proof fn next_chunk_follows(transfer: Transfer, count: nat)
    requires
        transfer.can_move(count),
    ensures
        transfer.pending() is Some,
        ({
            let chunk = transfer.pending()->0;
            let next = transfer.plus(count).pending();
            &&& 0 < count <= chunk.len
            &&& next is Some <==> count < chunk.len
            &&& next matches Some(rest) ==> rest.offset == chunk.offset + count && rest.len
                == chunk.len - count
        }),
{
}

/// The part that call `i` of a copy of `size` bytes was asked for.
pub open spec fn chunk_of_call(size: usize, counts: Seq<nat>, i: int) -> Chunk {
    (Transfer { size, done: 0 }).after(counts.take(i)).pending()->0
}

/// The parts that are moved lie end to end: the first begins at the first byte, each
/// begins where the one before it ended, and the copy is complete exactly when the
/// last has reached the end.
pub proof fn chunks_lie_end_to_end(size: usize, counts: Seq<nat>)
    requires
        (Transfer { size, done: 0 }).possible(counts),
        counts.len() > 0,
    ensures
        chunk_of_call(size, counts, 0) == (Chunk { offset: 0, len: size }),
        forall|i: int|
            0 <= i < counts.len() ==> (#[trigger] chunk_of_call(size, counts, i)).offset
                + chunk_of_call(size, counts, i).len == size,
        forall|i: int, j: int|
            0 <= i < counts.len() && j == i + 1 && j < counts.len() ==> (#[trigger] chunk_of_call(
                size,
                counts,
                j,
            )).offset == (#[trigger] chunk_of_call(size, counts, i)).offset + counts[i],
        (Transfer { size, done: 0 }).after(counts).pending() is None <==> chunk_of_call(
            size,
            counts,
            counts.len() - 1,
        ).offset + counts.last() == size,
{
    let start = Transfer { size, done: 0 };
    assert(counts.take(0) =~= Seq::<nat>::empty());
    assert(start.after(counts.take(0)) == start);
    assert(start.can_move(counts[0]));
    assert forall|i: int| 0 <= i < counts.len() implies {
        &&& (#[trigger] chunk_of_call(size, counts, i)).offset == start.after(counts.take(i)).done
        &&& chunk_of_call(size, counts, i).offset + chunk_of_call(size, counts, i).len == size
    } by {
        possible_before(start, counts, i);
        transfer_stays_inside(start, counts.take(i));
        assert(start.after(counts.take(i)).can_move(counts[i]));
    }
    assert forall|i: int, j: int|
        0 <= i < counts.len() && j == i + 1 && j < counts.len() implies (#[trigger] chunk_of_call(
        size,
        counts,
        j,
    )).offset == (#[trigger] chunk_of_call(size, counts, i)).offset + counts[i] by {
        assert(counts.take(j).drop_last() =~= counts.take(i));
        assert(start.after(counts.take(i)).can_move(counts[i]));
        possible_before(start, counts, i);
        transfer_stays_inside(start, counts.take(i));
    }
    let last = counts.len() - 1;
    assert(counts.drop_last() =~= counts.take(last));
    assert(start.after(counts.take(last)).can_move(counts[last]));
    possible_before(start, counts, last);
    transfer_stays_inside(start, counts.take(last));
    assert(chunk_of_call(size, counts, last).offset == start.after(counts.take(last)).done);
}

/// Whether call `i` of a copy of `size` bytes moved this byte: it moved `counts[i]`
/// bytes from the offset of its part on.
pub open spec fn moved_by(size: usize, counts: Seq<nat>, i: int, byte: int) -> bool {
    let offset = chunk_of_call(size, counts, i).offset;
    offset <= byte < offset + counts[i]
}

/// When a copy is complete, each byte of it was moved by one call and by no other:
/// the parts lie end to end from the first byte to the last.
pub proof fn transfer_moves_each_byte_once(size: usize, counts: Seq<nat>, byte: int)
    requires
        (Transfer { size, done: 0 }).possible(counts),
        (Transfer { size, done: 0 }).after(counts).pending() is None,
        0 <= byte < size,
    ensures
        exists|i: int| 0 <= i < counts.len() && #[trigger] moved_by(size, counts, i, byte),
        forall|i: int, j: int|
            0 <= i < j < counts.len() ==> !(#[trigger] moved_by(size, counts, i, byte)
                && #[trigger] moved_by(size, counts, j, byte)),
{
    let start = Transfer { size, done: 0 };
    transfer_stays_inside(start, counts);
    assert(counts.take(counts.len() as int) =~= counts);
    part_of(size, counts, counts.len() as int, byte);
    assert forall|i: int, j: int| 0 <= i < j < counts.len() implies !(#[trigger] moved_by(
        size,
        counts,
        i,
        byte,
    ) && #[trigger] moved_by(size, counts, j, byte)) by {
        done_grows(start, counts, i, j);
        assert(start.after(counts.take(i)).can_move(counts[i]));
        assert(start.after(counts.take(j)).can_move(counts[j]));
    }
}

proof fn part_of(size: usize, counts: Seq<nat>, k: int, byte: int)
    requires
        (Transfer { size, done: 0 }).possible(counts),
        0 <= k <= counts.len(),
        0 <= byte < (Transfer { size, done: 0 }).after(counts.take(k)).done,
    ensures
        exists|i: int| 0 <= i < k && #[trigger] moved_by(size, counts, i, byte),
    decreases k,
{
    let start = Transfer { size, done: 0 };
    if k > 0 {
        possible_before(start, counts, k - 1);
        transfer_stays_inside(start, counts.take(k - 1));
        assert(counts.take(k).drop_last() =~= counts.take(k - 1));
        assert(start.after(counts.take(k - 1)).can_move(counts[k - 1]));
        if byte < start.after(counts.take(k - 1)).done {
            part_of(size, counts, k - 1, byte);
        } else {
            assert(moved_by(size, counts, k - 1, byte));
        }
    }
}

/// Counting down what is left and counting up what is done come to the same: a
/// copy is complete by the one count when it is by the other.
pub proof fn countdown_agrees(size: usize, counts: Seq<nat>)
    requires
        (Transfer { size, done: 0 }).possible(counts),
    ensures
        (Countdown { left: size }).after(counts).left == size - (Transfer { size, done: 0 }).after(
            counts,
        ).done,
    decreases counts.len(),
{
    let start = Transfer { size, done: 0 };
    if counts.len() > 0 {
        let less = counts.drop_last();
        assert(counts.take(counts.len() - 1) =~= less);
        possible_before(start, counts, counts.len() - 1);
        transfer_stays_inside(start, less);
        assert(start.after(less).can_move(counts[counts.len() - 1]));
        countdown_agrees(size, less);
    }
}

} // verus!
