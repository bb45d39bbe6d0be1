//! What to ask of `mmap`, and how to read its answer.

use vstd::prelude::*;

use crate::page_size::PageSize;
use crate::sys::{
    anonymous_flag, failed_address, hugetlb_flag, map_anonymous, map_failed, map_hugetlb,
    map_private, map_shared, private_flag, prot_read, prot_write, read_prot, shared_flag,
    write_prot,
};

verus! {

/// The file descriptor of a mapping without a file.
pub const NO_FD: i32 = -1;

/// The arguments of a call of `mmap`, but for the address hint, which is null.
#[derive(Debug, Clone, Copy, PartialEq, Eq, Structural)]
pub struct MapRequest {
    pub len: usize,
    pub prot: i32,
    pub flags: i32,
    pub fd: i32,
    pub offset: i64,
}

/// Memory that can be read and written.
pub open spec fn read_write() -> i32 {
    read_prot() | write_prot()
}

/// The flags of an anonymous private mapping.
pub open spec fn anonymous_flags(page_size: PageSize) -> i32 {
    match page_size {
        PageSize::Standard => anonymous_flag() | private_flag(),
        PageSize::Huge => anonymous_flag() | private_flag()
            | hugetlb_flag(),
    }
}

impl MapRequest {
    /// An anonymous, private mapping of `size` bytes.
    pub fn anonymous(size: usize, page_size: PageSize) -> (request: Self)
        ensures
            request == (MapRequest {
                len: size,
                prot: read_write(),
                flags: anonymous_flags(page_size),
                fd: NO_FD,
                offset: 0,
            }),
    {
        let flags: i32 = match page_size {
            PageSize::Standard => map_anonymous() | map_private(),
            PageSize::Huge => map_anonymous() | map_private() | map_hugetlb(),
        };
        MapRequest { len: size, prot: prot_read() | prot_write(), flags, fd: NO_FD, offset: 0 }
    }

    /// A private mapping of the first `size` bytes of a file. The page size is
    /// that of the file.
    pub fn private_file(size: usize, fd: i32) -> (request: Self)
        ensures
            request == (MapRequest {
                len: size,
                prot: read_write(),
                flags: private_flag(),
                fd,
                offset: 0,
            }),
    {
        MapRequest { len: size, prot: prot_read() | prot_write(), flags: map_private(), fd, offset: 0 }
    }

    /// A shared mapping of the first `size` bytes of a file, through which the
    /// file is written.
    pub fn shared_file(size: usize, fd: i32) -> (request: Self)
        ensures
            request == (MapRequest {
                len: size,
                prot: read_write(),
                flags: shared_flag(),
                fd,
                offset: 0,
            }),
    {
        MapRequest { len: size, prot: prot_read() | prot_write(), flags: map_shared(), fd, offset: 0 }
    }
}

/// The address of the mapping that `mmap` made, or `None` where it failed.
pub fn mapped_at(address: usize) -> (mapping: Option<usize>)
    ensures
        mapping == (if address == failed_address() {
            None
        } else {
            Some(address)
        }),
{
    if address == map_failed() {
        None
    } else {
        Some(address)
    }
}

/// An anonymous mapping asks for huge pages exactly where the page size is huge,
/// and is anonymous and private in either case.
pub proof fn anonymous_flags_hold(page_size: PageSize)
    ensures
        anonymous_flags(page_size) & hugetlb_flag() != 0 <==> page_size is Huge,
        anonymous_flags(page_size) & anonymous_flag() != 0,
        anonymous_flags(page_size) & private_flag() != 0,
        anonymous_flags(page_size) & shared_flag() == 0,
{
    assert((0x20i32 | 0x2i32) & 0x40000i32 == 0) by (bit_vector);
    assert((0x20i32 | 0x2i32) & 0x20i32 != 0) by (bit_vector);
    assert((0x20i32 | 0x2i32) & 0x2i32 != 0) by (bit_vector);
    assert((0x20i32 | 0x2i32) & 0x1i32 == 0) by (bit_vector);
    assert((0x20i32 | 0x2i32 | 0x40000i32) & 0x40000i32 != 0) by (bit_vector);
    assert((0x20i32 | 0x2i32 | 0x40000i32) & 0x20i32 != 0) by (bit_vector);
    assert((0x20i32 | 0x2i32 | 0x40000i32) & 0x2i32 != 0) by (bit_vector);
    assert((0x20i32 | 0x2i32 | 0x40000i32) & 0x1i32 == 0) by (bit_vector);
}

} // verus!
