//! The steps that make an anonymous memory file of a given size.

use vstd::prelude::*;

use crate::page_size::PageSize;
use crate::sys::{as_offset, memfd_hugetlb_flag, mfd_hugetlb, offset_of};

verus! {

/// The step at which making a memory file failed.
#[derive(Debug, Clone, Copy, PartialEq, Eq, Structural)]
pub enum MemfdError {
    /// `memfd_create` returned a negative number.
    Create,
    /// `ftruncate` returned something other than zero.
    Resize,
}

/// What to do next.
#[derive(Debug, Clone, Copy, PartialEq, Eq, Structural)]
pub enum MemfdStep {
    /// Call `memfd_create` with these flags.
    Create { flags: u32, len: i64 },
    /// Call `ftruncate` with this file descriptor and length.
    Resize { fd: i32, len: i64 },
    /// The file is there.
    Ready { fd: i32 },
    /// Give up.
    Failed { error: MemfdError },
}

/// The name that the kernel shows for the file. It holds no zero character, which
/// would end it early.
pub fn memfd_name() -> (name: &'static str)
    ensures
        name@ == "bench"@,
        forall|i: int| 0 <= i < name@.len() ==> #[trigger] name@[i] != '\0',
{
    proof {
        reveal_strlit("bench");
    }
    "bench"
}

/// The flags of a memory file.
pub open spec fn memfd_flags(page_size: PageSize) -> u32 {
    match page_size {
        PageSize::Standard => 0,
        PageSize::Huge => memfd_hugetlb_flag(),
    }
}

impl MemfdStep {
    /// The first step towards a memory file of `size` bytes.
    pub fn first(size: usize, page_size: PageSize) -> (step: Self)
        ensures
            step matches MemfdStep::Create { flags, len } && flags == memfd_flags(page_size) && len
                == as_offset(size),
            step matches MemfdStep::Create { flags, len } && (size <= i64::MAX ==> len == size) && (
            page_size is Standard ==> flags == 0) && (page_size is Huge ==> flags
                == memfd_hugetlb_flag()),
    {
        let flags: u32 = match page_size {
            PageSize::Standard => 0,
            PageSize::Huge => mfd_hugetlb(),
        };
        MemfdStep::Create { flags, len: offset_of(size) }
    }

    /// The step that follows when the call of this one returned `ret`.
    pub open spec fn after(self, ret: i32) -> Self {
        match self {
            MemfdStep::Create { flags, len } => if ret >= 0 {
                MemfdStep::Resize { fd: ret, len }
            } else {
                MemfdStep::Failed { error: MemfdError::Create }
            },
            MemfdStep::Resize { fd, len } => if ret == 0 {
                MemfdStep::Ready { fd }
            } else {
                MemfdStep::Failed { error: MemfdError::Resize }
            },
            _ => self,
        }
    }

    /// The step that follows when the call of this one returned `ret`.
    pub fn next(self, ret: i32) -> (step: Self)
        ensures
            step == self.after(ret),
            match self {
                MemfdStep::Create { flags: _, len } => {
                    &&& ret >= 0 ==> step == (MemfdStep::Resize { fd: ret, len })
                    &&& ret < 0 ==> step == (MemfdStep::Failed { error: MemfdError::Create })
                },
                MemfdStep::Resize { fd, len: _ } => {
                    &&& ret == 0 ==> step == (MemfdStep::Ready { fd })
                    &&& ret != 0 ==> step == (MemfdStep::Failed { error: MemfdError::Resize })
                },
                MemfdStep::Ready { fd: _ } | MemfdStep::Failed { error: _ } => step == self,
            },
    {
        match self {
            MemfdStep::Create { flags: _, len } => if ret >= 0 {
                MemfdStep::Resize { fd: ret, len }
            } else {
                MemfdStep::Failed { error: MemfdError::Create }
            },
            MemfdStep::Resize { fd, len: _ } => if ret == 0 {
                MemfdStep::Ready { fd }
            } else {
                MemfdStep::Failed { error: MemfdError::Resize }
            },
            MemfdStep::Ready { fd } => MemfdStep::Ready { fd },
            MemfdStep::Failed { error } => MemfdStep::Failed { error },
        }
    }
}

/// A memory file is made of huge pages exactly where the page size is huge.
pub proof fn memfd_flags_hold(page_size: PageSize)
    ensures
        memfd_flags(page_size) & memfd_hugetlb_flag() != 0 <==> page_size is Huge,
{
    assert(0u32 & 0x4u32 == 0) by (bit_vector);
    assert(0x4u32 & 0x4u32 != 0) by (bit_vector);
}

/// A memory file is ready exactly when its creation gave a file descriptor and
/// its resizing succeeded, and it then is that file descriptor.
pub proof fn memfd_ready_after_both_calls(flags: u32, len: i64, created: i32, resized: i32)
    ensures
        ({
            let last = (MemfdStep::Create { flags, len }).after(created).after(resized);
            &&& last is Ready <==> created >= 0 && resized == 0
            &&& last is Ready ==> last == (MemfdStep::Ready { fd: created })
            &&& !(last is Ready) ==> last is Failed
        }),
{
}

/// The file that was created is resized to the length that was asked for, whatever
/// its flags.
pub proof fn memfd_is_resized_to_its_length(flags: u32, len: i64, created: i32)
    ensures
        created >= 0 ==> (MemfdStep::Create { flags, len }).after(created) == (MemfdStep::Resize {
            fd: created,
            len,
        }),
        created < 0 ==> (MemfdStep::Create { flags, len }).after(created) == (MemfdStep::Failed {
            error: MemfdError::Create,
        }),
{
}

/// A memory file that was asked for with `size` bytes is resized to `size` bytes.
pub proof fn memfd_is_resized_to_its_size(size: usize, flags: u32, len: i64, created: i32)
    requires
        size <= i64::MAX,
        created >= 0,
        len == as_offset(size),
    ensures
        (MemfdStep::Create { flags, len }).after(created) matches MemfdStep::Resize {
            fd,
            len: resized,
        } && fd == created && resized == size,
{
}

/// Resizing ends the steps: the file is ready, or the resizing is what failed.
pub proof fn memfd_resizing_is_last(fd: i32, len: i64, resized: i32)
    ensures
        resized == 0 ==> (MemfdStep::Resize { fd, len }).after(resized) == (MemfdStep::Ready { fd }),
        resized != 0 ==> (MemfdStep::Resize { fd, len }).after(resized) == (MemfdStep::Failed {
            error: MemfdError::Resize,
        }),
{
}

/// Nothing follows a file that is ready or a failure.
pub proof fn memfd_end_is_final(step: MemfdStep, ret: i32)
    requires
        step is Ready || step is Failed,
    ensures
        step.after(ret) == step,
{
}

} // verus!
