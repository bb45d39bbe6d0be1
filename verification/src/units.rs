//! Binary size units.

use vstd::prelude::*;

verus! {

pub const KB: usize = 1024;

pub const MB: usize = 1024 * KB;

pub const GB: usize = 1024 * MB;

/// Default huge page size on x86-64. Sizes must be a multiple of this to use
/// `MAP_HUGETLB` / `MFD_HUGETLB`.
pub const HUGE_PAGE_SIZE: usize = 2 * MB;

} // verus!
