//! The page-fault benchmark: what its memory is backed by, the cases that it is
//! run for, and the places that it touches.

use vstd::prelude::*;

use crate::mapping::{anonymous_flags, MapRequest, NO_FD, read_write};
use crate::memfd::{MemfdStep, memfd_flags};
use crate::page_size::PageSize;
use crate::sys::{as_offset, private_flag};
use crate::units::{HUGE_PAGE_SIZE, KB};

verus! {

/// Number of pages touched per iteration.
pub const N_FAULT_PAGES: usize = 128;

/// How a memory region is backed.
#[derive(Debug, Clone, Copy, PartialEq, Eq, Structural)]
pub enum Backing {
    /// Anonymous private pages, zero-filled on first access.
    Anonymous,
    /// A real on-disk file. The page cache mediates faults.
    File,
    /// An anonymous in-memory file. The page cache mediates faults.
    Memfd,
}

impl Backing {
    pub const ALL: [Self; 3] = [Self::Anonymous, Self::File, Self::Memfd];

    /// The short name of the backing in a benchmark's name.
    pub open spec fn label_text(self) -> Seq<char> {
        match self {
            Self::Anonymous => "anon"@,
            Self::File => "file"@,
            Self::Memfd => "memfd"@,
        }
    }

    pub fn label(self) -> (name: &'static str)
        ensures
            name@ == self.label_text(),
            match self {
                Self::Anonymous => name@ == "anon"@,
                Self::File => name@ == "file"@,
                Self::Memfd => name@ == "memfd"@,
            },
    {
        match self {
            Self::Anonymous => "anon",
            Self::File => "file",
            Self::Memfd => "memfd",
        }
    }

    /// File-backed huge-page mappings require a hugetlbfs mount. A plain file on a
    /// regular filesystem cannot be mapped with `MAP_HUGETLB`.
    pub fn supports_huge_pages(self) -> (yes: bool)
        ensures
            yes == !(self is File),
    {
        match self {
            Self::Anonymous => true,
            Self::File => false,
            Self::Memfd => true,
        }
    }

    /// Whether memory of this backing can be made of pages of this size.
    pub open spec fn allows(self, page_size: PageSize) -> bool {
        self is File ==> page_size is Standard
    }
}

/// Backings are told apart by their labels.
pub proof fn backing_labels_differ(a: Backing, b: Backing)
    ensures
        a.label_text() == b.label_text() ==> a == b,
{
    reveal_strlit("anon");
    reveal_strlit("file");
    reveal_strlit("memfd");
    assert("anon"@.len() == 4);
    assert("file"@.len() == 4);
    assert("memfd"@.len() == 5);
    assert("anon"@[0] != "file"@[0]);
}

/// A plain file cannot be mapped with huge pages.
#[derive(Debug, Clone, Copy, PartialEq, Eq, Structural)]
pub struct HugeFileError;

/// The file that a mapping needs.
#[derive(Debug, Clone, Copy, PartialEq, Eq, Structural)]
pub enum FileSource {
    /// None.
    NoFile,
    /// A temporary file on disk, of this many bytes.
    TempFile { size: usize },
    /// A memory file, which is made by these steps.
    MemFile { first: MemfdStep },
}

/// A mapping together with what backs it.
#[derive(Debug, Clone, Copy, PartialEq, Eq, Structural)]
pub struct Mapping {
    size: usize,
    backing: Backing,
    page_size: PageSize,
}

impl Mapping {
    pub closed spec fn size(self) -> usize {
        self.size
    }

    pub closed spec fn backing(self) -> Backing {
        self.backing
    }

    pub closed spec fn page_size(self) -> PageSize {
        self.page_size
    }

    /// A file is never mapped with huge pages.
    pub open spec fn wf(self) -> bool {
        self.backing().allows(self.page_size())
    }

    /// Plans a mapping of `size` bytes.
    pub fn new(size: usize, backing: Backing, page_size: PageSize) -> (mapping: Result<
        Self,
        HugeFileError,
    >)
        ensures
            match mapping {
                Ok(plan) => {
                    &&& plan.wf()
                    &&& plan.size() == size
                    &&& plan.backing() == backing
                    &&& plan.page_size() == page_size
                },
                Err(_) => !backing.allows(page_size),
            },
            mapping is Err <==> backing is File && page_size is Huge,
    {
        match (backing, page_size) {
            (Backing::File, PageSize::Huge) => Err(HugeFileError),
            _ => Ok(Mapping { size, backing, page_size }),
        }
    }

    /// The file to make before the mapping.
    pub fn source(&self) -> (source: FileSource)
        ensures
            match self.backing() {
                Backing::Anonymous => source is NoFile,
                Backing::File => source == (FileSource::TempFile { size: self.size() }),
                Backing::Memfd => source matches FileSource::MemFile { first } && first matches
                    MemfdStep::Create { flags, len } && flags == memfd_flags(
                    self.page_size(),
                ) && len == as_offset(self.size()),
            },
            self.backing() is Memfd && self.size() <= i64::MAX ==> (source matches
                FileSource::MemFile { first } && first matches MemfdStep::Create { flags: _, len }
                && len == self.size()),
    {
        match self.backing {
            Backing::Anonymous => FileSource::NoFile,
            Backing::File => FileSource::TempFile { size: self.size },
            Backing::Memfd => FileSource::MemFile {
                first: MemfdStep::first(self.size, self.page_size),
            },
        }
    }

    /// The mapping to ask for. `fd` is the file, where there is one. The page size
    /// of a memory file is set when the file is made, and not asked for again.
    pub fn request(&self, fd: i32) -> (request: MapRequest)
        ensures
            request.len == self.size(),
            request.prot == read_write(),
            request.flags == (if self.backing() is Anonymous {
                anonymous_flags(self.page_size())
            } else {
                private_flag()
            }),
            request.fd == (if self.backing() is Anonymous {
                NO_FD
            } else {
                fd
            }),
            request.offset == 0,
    {
        match self.backing {
            Backing::Anonymous => MapRequest::anonymous(self.size, self.page_size),
            Backing::File => MapRequest::private_file(self.size, fd),
            Backing::Memfd => MapRequest::private_file(self.size, fd),
        }
    }

    /// Whether the file descriptor is to be closed by hand when the mapping goes:
    /// that of a memory file is.
    pub fn closes_fd(&self) -> (yes: bool)
        ensures
            yes == self.backing() is Memfd,
    {
        match self.backing {
            Backing::Memfd => true,
            _ => false,
        }
    }
}

/// What the page-fault benchmark is run for.
#[derive(Debug, Clone, Copy, PartialEq, Eq, Structural)]
pub struct FaultCase {
    pub backing: Backing,
    pub page_size: PageSize,
}

/// The cases of the page-fault benchmark: each backing with each page size that
/// it supports.
pub open spec fn all_fault_cases() -> Seq<FaultCase> {
    seq![
        FaultCase { backing: Backing::Anonymous, page_size: PageSize::Standard },
        FaultCase { backing: Backing::Anonymous, page_size: PageSize::Huge },
        FaultCase { backing: Backing::File, page_size: PageSize::Standard },
        FaultCase { backing: Backing::Memfd, page_size: PageSize::Standard },
        FaultCase { backing: Backing::Memfd, page_size: PageSize::Huge },
    ]
}

/// The cases of one backing, for the first `k` page sizes.
spec fn cases_so_far(backing: Backing, k: int) -> Seq<FaultCase> {
    if k == 0 {
        Seq::empty()
    } else if k == 1 || backing is File {
        seq![FaultCase { backing, page_size: PageSize::Standard }]
    } else {
        seq![
            FaultCase { backing, page_size: PageSize::Standard },
            FaultCase { backing, page_size: PageSize::Huge },
        ]
    }
}

/// The cases to run, in order.
pub fn fault_cases() -> (cases: Vec<FaultCase>)
    ensures
        cases@ == all_fault_cases(),
{
    let mut cases: Vec<FaultCase> = Vec::new();
    let mut i: usize = 0;
    while i < Backing::ALL.len()
        invariant
            i <= 3,
            cases@ == all_fault_cases().take(
                if i == 0 {
                    0
                } else if i == 1 {
                    2
                } else if i == 2 {
                    3
                } else {
                    5
                },
            ),
        decreases 3 - i,
    {
        let backing = Backing::ALL[i];
        let ghost before = cases@;
        let mut k: usize = 0;
        while k < PageSize::ALL.len()
            invariant
                k <= 2,
                cases@ =~= before + cases_so_far(backing, k as int),
            decreases 2 - k,
        {
            let page_size = PageSize::ALL[k];
            if page_size == PageSize::Standard || backing.supports_huge_pages() {
                cases.push(FaultCase { backing, page_size });
            }
            k = k + 1;
        }
        i = i + 1;
    }
    assert(all_fault_cases().take(5) =~= all_fault_cases());
    cases
}

impl FaultCase {
    /// The size of the region in bytes.
    pub open spec fn region(self) -> nat {
        N_FAULT_PAGES as nat * self.page_size.page_bytes()
    }

    /// The size of the region in bytes.
    pub fn region_bytes(self) -> (size: usize)
        ensures
            size == self.region(),
            self.page_size is Standard ==> size == 128 * 4096,
            self.page_size is Huge ==> size == 128 * 2097152,
    {
        N_FAULT_PAGES * self.page_size.bytes()
    }

    /// Where write number `i` goes: to the first byte of page `i`.
    pub open spec fn offset_at(self, i: int) -> int {
        i * self.page_size.page_bytes()
    }

    /// Where the region is written to, in order: at the first byte of each page.
    pub fn offsets(self) -> (offsets: Vec<usize>)
        ensures
            offsets@.len() == N_FAULT_PAGES,
            forall|i: int|
                0 <= i < N_FAULT_PAGES ==> #[trigger] offsets@[i] == self.offset_at(i),
            forall|i: int|
                0 <= i < N_FAULT_PAGES ==> #[trigger] offsets@[i] == i * (
                if self.page_size is Huge {
                    2097152int
                } else {
                    4096int
                }),
    {
        let total: usize = self.region_bytes();
        let step: usize = self.page_size.bytes();
        let mut offsets: Vec<usize> = Vec::new();
        let mut offset: usize = 0;
        while offset < total
            invariant
                total == N_FAULT_PAGES * step,
                step == self.page_size.page_bytes(),
                offset == offsets@.len() * step,
                forall|i: int|
                    0 <= i < offsets@.len() ==> #[trigger] offsets@[i] == self.offset_at(i),
                offset <= total,
            decreases total - offset,
        {
            let ghost pages = offsets@.len() as int;
            assert(pages < N_FAULT_PAGES) by (nonlinear_arith)
                requires
                    pages * step < N_FAULT_PAGES * step,
                    step >= 0,
            ;
            assert((pages + 1) * step == pages * step + step && (pages + 1) * step <= N_FAULT_PAGES
                * step) by (nonlinear_arith)
                requires
                    pages + 1 <= N_FAULT_PAGES,
                    step >= 0,
            ;
            assert(step > 0);
            offsets.push(offset);
            offset = offset + step;
        }
        let ghost pages = offsets@.len() as int;
        assert(step > 0);
        assert(pages == N_FAULT_PAGES) by (nonlinear_arith)
            requires
                pages * step == N_FAULT_PAGES * step,
                step > 0,
        ;
        offsets
    }
}

/// The benchmark is run for every backing and page size, but for files with huge
/// pages.
pub proof fn fault_cases_are_complete(case: FaultCase)
    ensures
        all_fault_cases().contains(case) <==> case.backing.allows(case.page_size),
        all_fault_cases().no_duplicates(),
{
    let all = all_fault_cases();
    match (case.backing, case.page_size) {
        (Backing::Anonymous, PageSize::Standard) => {
            assert(all[0] == case);
        },
        (Backing::Anonymous, PageSize::Huge) => {
            assert(all[1] == case);
        },
        (Backing::File, PageSize::Standard) => {
            assert(all[2] == case);
        },
        (Backing::Memfd, PageSize::Standard) => {
            assert(all[3] == case);
        },
        (Backing::Memfd, PageSize::Huge) => {
            assert(all[4] == case);
        },
        (Backing::File, PageSize::Huge) => {},
    }
}

/// The region of a case is made of whole pages of its size, and the page of each
/// address in it is touched by one write and by no other.
pub proof fn each_page_is_touched_once(case: FaultCase, address: int)
    requires
        0 <= address < case.region(),
    ensures
        case.page_size.fits(case.region() as int),
        case.region() % case.page_size.page_bytes() == 0,
        0 <= address / (case.page_size.page_bytes() as int) < N_FAULT_PAGES,
        forall|i: int|
            #![trigger case.offset_at(i)]
            case.offset_at(i) / (case.page_size.page_bytes() as int) == address / (
            case.page_size.page_bytes() as int) <==> i == address / (
            case.page_size.page_bytes() as int),
{
    assert(HUGE_PAGE_SIZE == 2097152 && KB == 1024);
    assert(case.page_size.page_bytes() == 4096 || case.page_size.page_bytes() == 2097152);
    assert forall|i: int| #![trigger case.offset_at(i)] case.offset_at(i) / (
    case.page_size.page_bytes() as int) == i by {
        assert((i * 4096) / 4096 == i);
        assert((i * 2097152) / 2097152 == i);
    }
}

/// Writes go to the first byte of the region, and each goes one page further than
/// the one before it, to the last page.
pub proof fn offsets_go_page_by_page(case: FaultCase, i: int)
    ensures
        case.offset_at(0) == 0,
        case.offset_at(i + 1) == case.offset_at(i) + (if case.page_size is Huge {
            2097152int
        } else {
            4096int
        }),
        case.offset_at(N_FAULT_PAGES as int) == case.region(),
{
    assert(HUGE_PAGE_SIZE == 2097152 && KB == 1024);
    let page = case.page_size.page_bytes() as int;
    assert(page == 4096 || page == 2097152);
    assert((i + 1) * page == i * page + page) by (nonlinear_arith);
}

/// A backing has huge pages unless it is a file, and regular pages in any case.
pub proof fn only_files_lack_huge_pages(backing: Backing)
    ensures
        backing.allows(PageSize::Huge) <==> backing is Anonymous || backing is Memfd,
        backing.allows(PageSize::Standard),
{
}

} // verus!
