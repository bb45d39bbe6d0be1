//! The page sizes that a region can be mapped with.

use vstd::prelude::*;

use crate::units::{HUGE_PAGE_SIZE, KB};

verus! {

#[derive(Debug, Clone, Copy, PartialEq, Eq, Structural)]
pub enum PageSize {
    /// Regular 4 KiB pages.
    Standard,
    /// 2 MiB huge pages via `MAP_HUGETLB` / `MFD_HUGETLB`.
    Huge,
}

impl PageSize {
    pub const ALL: [Self; 2] = [Self::Standard, Self::Huge];

    /// The short name of the page size in a benchmark's name.
    pub open spec fn label_text(self) -> Seq<char> {
        match self {
            Self::Standard => "4k"@,
            Self::Huge => "2m"@,
        }
    }

    pub fn label(self) -> (name: &'static str)
        ensures
            name@ == self.label_text(),
            self is Standard ==> name@ == "4k"@,
            self is Huge ==> name@ == "2m"@,
    {
        match self {
            Self::Standard => "4k",
            Self::Huge => "2m",
        }
    }

    /// Whether a region of `size` bytes can be made of pages of this size.
    pub open spec fn fits(self, size: int) -> bool {
        self is Huge ==> size % (HUGE_PAGE_SIZE as int) == 0
    }

    /// `MAP_HUGETLB` / `MFD_HUGETLB` require the allocation size to be a multiple
    /// of the huge page size.
    pub fn is_size_compatible(self, size: usize) -> (ok: bool)
        ensures
            ok == self.fits(size as int),
            ok == (self is Standard || size % 2097152 == 0),
    {
        match self {
            Self::Standard => true,
            Self::Huge => size % HUGE_PAGE_SIZE == 0,
        }
    }

    /// The number of bytes in one page.
    pub open spec fn page_bytes(self) -> nat {
        match self {
            Self::Standard => (4 * KB) as nat,
            Self::Huge => HUGE_PAGE_SIZE as nat,
        }
    }

    /// The number of bytes in one page.
    pub fn bytes(self) -> (count: usize)
        ensures
            count == self.page_bytes(),
            self is Standard ==> count == 4096,
            self is Huge ==> count == 2097152,
    {
        match self {
            Self::Standard => 4 * KB,
            Self::Huge => HUGE_PAGE_SIZE,
        }
    }
}

/// Page sizes are told apart by their labels.
pub proof fn page_size_labels_differ(a: PageSize, b: PageSize)
    ensures
        a.label_text() == b.label_text() ==> a == b,
{
    reveal_strlit("4k");
    reveal_strlit("2m");
    if a != b {
        assert("4k"@[0] != "2m"@[0]);
    }
}

/// `PageSize::ALL` names every page size, and none twice.
pub proof fn all_page_sizes(p: PageSize)
    ensures
        exists|i: int|
            #![trigger PageSize::ALL@[i]]
            0 <= i < PageSize::ALL@.len() && PageSize::ALL@[i] == p && forall|j: int|
                0 <= j < PageSize::ALL@.len() && PageSize::ALL@[j] == p ==> j == i,
{
    match p {
        PageSize::Standard => {
            assert(PageSize::ALL@[0] == p);
        },
        PageSize::Huge => {
            assert(PageSize::ALL@[1] == p);
        },
    }
}

/// `k` huge pages and `rest` bytes more can be made of huge pages exactly where
/// nothing is left over. Regular pages make up every size.
pub proof fn huge_pages_leave_no_rest(k: int, rest: int)
    requires
        0 <= rest < 2097152,
    ensures
        PageSize::Huge.fits(k * 2097152 + rest) <==> rest == 0,
        PageSize::Standard.fits(k * 2097152 + rest),
{
    assert(HUGE_PAGE_SIZE == 2097152);
}

/// The number of bytes in `k` huge pages.
pub open spec fn huge_pages(k: int) -> int {
    k * 2097152
}

/// A size can be made of huge pages exactly where it is a whole number of them.
pub proof fn huge_sizes_are_whole_pages(size: int)
    ensures
        PageSize::Huge.fits(size) <==> exists|k: int| size == #[trigger] huge_pages(k),
        PageSize::Standard.fits(size),
{
    let k = size / 2097152;
    huge_pages_leave_no_rest(k, size % 2097152);
    if PageSize::Huge.fits(size) {
        assert(size == huge_pages(k));
    }
    if exists|j: int| size == #[trigger] huge_pages(j) {
        let j = choose|j: int| size == #[trigger] huge_pages(j);
        huge_pages_leave_no_rest(j, 0);
    }
}

/// Huge regions laid end to end can be made of huge pages exactly where the added
/// one can.
pub proof fn huge_sizes_add_up(a: int, b: int)
    requires
        PageSize::Huge.fits(a),
    ensures
        PageSize::Huge.fits(a + b) <==> PageSize::Huge.fits(b),
        PageSize::Huge.fits(0),
        PageSize::Huge.fits(2097152),
        forall|r: int| 0 < r < 2097152 ==> !#[trigger] PageSize::Huge.fits(r),
{
    assert(HUGE_PAGE_SIZE == 2097152);
}

} // verus!
