//! The constants of the operating system's memory interface, as the crate `libc`
//! has them for Linux on x86-64.

use vstd::prelude::*;

verus! {

/// Pages can be read.
pub open spec fn read_prot() -> i32 {
    0x1
}

/// Pages can be written.
pub open spec fn write_prot() -> i32 {
    0x2
}

/// Writes go to the mapped file.
pub open spec fn shared_flag() -> i32 {
    0x1
}

/// Writes stay in the process.
pub open spec fn private_flag() -> i32 {
    0x2
}

/// The mapping has no file behind it.
pub open spec fn anonymous_flag() -> i32 {
    0x20
}

/// The mapping is made of huge pages.
pub open spec fn hugetlb_flag() -> i32 {
    0x40000
}

/// The memory file is made of huge pages.
pub open spec fn memfd_hugetlb_flag() -> u32 {
    0x4
}

/// The address that `mmap` returns in place of a mapping.
pub open spec fn failed_address() -> usize {
    usize::MAX
}

/// `libc::PROT_READ` is [`read_prot`].
#[verifier::external_body]
pub(crate) fn prot_read() -> (bit: i32)
    ensures
        bit == read_prot(),
{
    libc::PROT_READ
}

/// `libc::PROT_WRITE` is [`write_prot`].
#[verifier::external_body]
pub(crate) fn prot_write() -> (bit: i32)
    ensures
        bit == write_prot(),
{
    libc::PROT_WRITE
}

/// `libc::MAP_SHARED` is [`shared_flag`].
#[verifier::external_body]
pub(crate) fn map_shared() -> (bit: i32)
    ensures
        bit == shared_flag(),
{
    libc::MAP_SHARED
}

/// `libc::MAP_PRIVATE` is [`private_flag`].
#[verifier::external_body]
pub(crate) fn map_private() -> (bit: i32)
    ensures
        bit == private_flag(),
{
    libc::MAP_PRIVATE
}

/// `libc::MAP_ANONYMOUS` is [`anonymous_flag`].
#[verifier::external_body]
pub(crate) fn map_anonymous() -> (bit: i32)
    ensures
        bit == anonymous_flag(),
{
    libc::MAP_ANONYMOUS
}

/// `libc::MAP_HUGETLB` is [`hugetlb_flag`].
#[verifier::external_body]
pub(crate) fn map_hugetlb() -> (bit: i32)
    ensures
        bit == hugetlb_flag(),
{
    libc::MAP_HUGETLB
}

/// `libc::MFD_HUGETLB` is [`memfd_hugetlb_flag`].
#[verifier::external_body]
pub(crate) fn mfd_hugetlb() -> (bit: u32)
    ensures
        bit == memfd_hugetlb_flag(),
{
    libc::MFD_HUGETLB
}

/// `libc::MAP_FAILED` is the pointer to [`failed_address`].
#[verifier::external_body]
pub(crate) fn map_failed() -> (address: usize)
    ensures
        address == failed_address(),
{
    libc::MAP_FAILED as usize
}

/// The `off_t` that a `usize` is cast to: the same number, or, from the largest
/// `off_t` on, the number that is lower by two to the power of 64.
pub open spec fn as_offset(n: usize) -> int {
    if n <= i64::MAX {
        n as int
    } else {
        n - 0x1_0000_0000_0000_0000
    }
}

/// Casts a length or a position to an `off_t`.
pub fn offset_of(n: usize) -> (offset: i64)
    ensures
        offset == as_offset(n),
        n <= i64::MAX ==> offset == n,
        n > i64::MAX ==> offset == n - 0x1_0000_0000_0000_0000,
{
    let wide: u64 = n as u64;
    assert(wide <= 0x7fff_ffff_ffff_ffffu64 ==> wide as i64 == wide) by (bit_vector);
    assert(wide > 0x7fff_ffff_ffff_ffffu64 ==> wide as i64 == wide - 0x1_0000_0000_0000_0000)
        by (bit_vector);
    wide as i64
}

/// A cast to an `off_t` keeps the low 64 bits, and so every number that fits.
pub proof fn offset_keeps_low_bits(n: usize)
    ensures
        i64::MIN <= as_offset(n) <= i64::MAX,
        (n - as_offset(n)) % 0x1_0000_0000_0000_0000 == 0,
        0 <= n <= i64::MAX ==> as_offset(n) == n,
{
}

/// Different numbers are cast to different offsets.
pub proof fn offsets_differ(a: usize, b: usize)
    ensures
        as_offset(a) == as_offset(b) ==> a == b,
{
}

} // verus!
