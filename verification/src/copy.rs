//! The copy benchmarks and the cases that each is run for.

use vstd::prelude::*;

use crate::page_size::PageSize;
use crate::sizes::{default_sizes, default_sizes_with_huge_pages};
use crate::units::{HUGE_PAGE_SIZE, MB};

verus! {

/// A way to move data from one memory region to another.
#[derive(Debug, Clone, Copy, PartialEq, Eq, Structural)]
pub enum CopyBenchmark {
    /// From the mapping of a child process to a local one, by `process_vm_readv`.
    ProcessVmReadv,
    /// From an anonymous mapping to a regular file, by `pwrite`.
    MmapToFile,
    /// Between two anonymous mappings, by `memcpy`.
    MmapToMmap,
    /// Between two regular files, by `sendfile`.
    FdToFd,
    /// From a memory file to an anonymous mapping, by `pread`.
    MemfdToMmap,
}

/// What a copy benchmark is run for.
#[derive(Debug, Clone, Copy, PartialEq, Eq, Structural)]
pub struct CopyCase {
    /// The number of bytes to copy.
    pub size: usize,
    /// The page size of the mappings, where the benchmark has any.
    pub page_size: Option<PageSize>,
}

impl CopyBenchmark {
    pub const ALL: [Self; 5] = [
        Self::ProcessVmReadv,
        Self::MmapToFile,
        Self::MmapToMmap,
        Self::FdToFd,
        Self::MemfdToMmap,
    ];

    /// The name of the group that the cases are reported in.
    pub open spec fn group_text(self) -> Seq<char> {
        match self {
            Self::ProcessVmReadv => "process_vm_readv"@,
            Self::MmapToFile => "mmap_to_file"@,
            Self::MmapToMmap => "mmap_to_mmap"@,
            Self::FdToFd => "fd_to_fd"@,
            Self::MemfdToMmap => "memfd_to_mmap"@,
        }
    }

    /// The name of the group that the cases are reported in.
    pub fn group(self) -> (name: &'static str)
        ensures
            name@ == self.group_text(),
            match self {
                Self::ProcessVmReadv => name@ == "process_vm_readv"@,
                Self::MmapToFile => name@ == "mmap_to_file"@,
                Self::MmapToMmap => name@ == "mmap_to_mmap"@,
                Self::FdToFd => name@ == "fd_to_fd"@,
                Self::MemfdToMmap => name@ == "memfd_to_mmap"@,
            },
    {
        match self {
            Self::ProcessVmReadv => "process_vm_readv",
            Self::MmapToFile => "mmap_to_file",
            Self::MmapToMmap => "mmap_to_mmap",
            Self::FdToFd => "fd_to_fd",
            Self::MemfdToMmap => "memfd_to_mmap",
        }
    }

    /// The cases of one size. Files are always cached in regular pages, so the
    /// copy between files has one case. The others have one for each page size
    /// that makes up the size.
    pub open spec fn cases_of_size(self, size: usize) -> Seq<CopyCase> {
        if self is FdToFd {
            seq![CopyCase { size, page_size: None }]
        } else if PageSize::Huge.fits(size as int) {
            seq![
                CopyCase { size, page_size: Some(PageSize::Standard) },
                CopyCase { size, page_size: Some(PageSize::Huge) },
            ]
        } else {
            seq![CopyCase { size, page_size: Some(PageSize::Standard) }]
        }
    }

    /// The cases of `sizes`, in order.
    pub open spec fn cases_of(self, sizes: Seq<usize>) -> Seq<CopyCase>
        decreases sizes.len(),
    {
        if sizes.len() == 0 {
            Seq::empty()
        } else {
            self.cases_of(sizes.drop_last()) + self.cases_of_size(sizes.last())
        }
    }

    /// The cases to run for `sizes`, in order.
    pub fn cases(self, sizes: &[usize]) -> (cases: Vec<CopyCase>)
        ensures
            cases@ == self.cases_of(sizes@),
    {
        let mut cases: Vec<CopyCase> = Vec::new();
        let mut i: usize = 0;
        assert(sizes@.take(0) =~= Seq::<usize>::empty());
        while i < sizes.len()
            invariant
                i <= sizes.len(),
                cases@ == self.cases_of(sizes@.take(i as int)),
            decreases sizes.len() - i,
        {
            let size = sizes[i];
            let ghost before = cases@;
            match self {
                CopyBenchmark::FdToFd => {
                    cases.push(CopyCase { size, page_size: None });
                },
                _ => {
                    let mut k: usize = 0;
                    while k < PageSize::ALL.len()
                        invariant
                            k <= PageSize::ALL@.len(),
                            cases@ =~= before + (if k == 0 {
                                Seq::empty()
                            } else if k == 1 {
                                seq![CopyCase { size, page_size: Some(PageSize::Standard) }]
                            } else if PageSize::Huge.fits(size as int) {
                                seq![
                                    CopyCase { size, page_size: Some(PageSize::Standard) },
                                    CopyCase { size, page_size: Some(PageSize::Huge) },
                                ]
                            } else {
                                seq![CopyCase { size, page_size: Some(PageSize::Standard) }]
                            }),
                        decreases PageSize::ALL@.len() - k,
                    {
                        let page_size = PageSize::ALL[k];
                        if page_size.is_size_compatible(size) {
                            cases.push(CopyCase { size, page_size: Some(page_size) });
                        }
                        k = k + 1;
                    }
                },
            }
            assert(cases@ =~= before + self.cases_of_size(size));
            assert(sizes@.take(i + 1).drop_last() =~= sizes@.take(i as int));
            i = i + 1;
        }
        assert(sizes@.take(i as int) =~= sizes@);
        cases
    }
}

/// Whether a benchmark has a case of this kind at all.
pub open spec fn suits(benchmark: CopyBenchmark, case: CopyCase) -> bool {
    match case.page_size {
        None => benchmark is FdToFd,
        Some(page_size) => !(benchmark is FdToFd) && page_size.fits(case.size as int),
    }
}

/// A benchmark is run for every size that it is given and every page size that
/// makes up the size, and for nothing else. Only the copy between files has no
/// page size.
pub proof fn copy_cases_are_complete(benchmark: CopyBenchmark, sizes: Seq<usize>, case: CopyCase)
    ensures
        benchmark.cases_of(sizes).contains(case) <==> sizes.contains(case.size) && suits(
            benchmark,
            case,
        ),
    decreases sizes.len(),
{
    if sizes.len() > 0 {
        let less = sizes.drop_last();
        let last = benchmark.cases_of_size(sizes.last());
        copy_cases_are_complete(benchmark, less, case);
        assert(benchmark.cases_of(sizes) =~= benchmark.cases_of(less) + last);
        cases_of_one_size(benchmark, sizes.last(), case);
        contains_in_sum(benchmark.cases_of(less), last, case);
        contains_in_sum(less, seq![sizes.last()], case.size);
        assert(sizes =~= less + seq![sizes.last()]);
        assert(seq![sizes.last()].contains(case.size) <==> case.size == sizes.last()) by {
            assert(seq![sizes.last()][0] == sizes.last());
        }
    }
}

proof fn contains_in_sum<A>(a: Seq<A>, b: Seq<A>, x: A)
    ensures
        (a + b).contains(x) <==> a.contains(x) || b.contains(x),
{
    if a.contains(x) {
        let i = choose|i: int| 0 <= i < a.len() && a[i] == x;
        assert((a + b)[i] == x);
    }
    if b.contains(x) {
        let i = choose|i: int| 0 <= i < b.len() && b[i] == x;
        assert((a + b)[a.len() + i] == x);
    }
}

proof fn cases_of_one_size(benchmark: CopyBenchmark, size: usize, case: CopyCase)
    ensures
        benchmark.cases_of_size(size).contains(case) <==> case.size == size && suits(
            benchmark,
            case,
        ),
{
    let cases = benchmark.cases_of_size(size);
    if case.size == size && suits(benchmark, case) {
        match case.page_size {
            Some(PageSize::Huge) => {
                assert(cases[1] == case);
            },
            _ => {
                assert(cases[0] == case);
            },
        }
    }
}

/// No case is run twice where no size is given twice.
pub proof fn copy_cases_are_distinct(benchmark: CopyBenchmark, sizes: Seq<usize>)
    requires
        sizes.no_duplicates(),
    ensures
        benchmark.cases_of(sizes).no_duplicates(),
    decreases sizes.len(),
{
    if sizes.len() > 0 {
        let less = sizes.drop_last();
        let a = benchmark.cases_of(less);
        let b = benchmark.cases_of_size(sizes.last());
        copy_cases_are_distinct(benchmark, less);
        assert forall|i: int, j: int| 0 <= i < a.len() && 0 <= j < b.len() implies a[i] != b[j] by {
            assert(a.contains(a[i]));
            copy_cases_are_complete(benchmark, less, a[i]);
            assert(b.contains(b[j]));
            cases_of_one_size(benchmark, sizes.last(), b[j]);
            assert(less.contains(a[i].size));
            let k = choose|k: int| 0 <= k < less.len() && less[k] == a[i].size;
            assert(sizes[k] == a[i].size);
        }
        assert forall|i: int, j: int|
            0 <= i < (a + b).len() && 0 <= j < (a + b).len() && i != j implies (a + b)[i] != (a
            + b)[j] by {
            if i < a.len() && j < a.len() {
                assert((a + b)[i] == a[i] && (a + b)[j] == a[j]);
            } else if i >= a.len() && j >= a.len() {
                assert((a + b)[i] == b[i - a.len()] && (a + b)[j] == b[j - a.len()]);
            }
        }
    }
}

/// In the full sweep, huge pages are used from 16 MiB on, and from there for
/// every size, by every benchmark but the copy between files.
pub proof fn huge_pages_in_full_sweep(benchmark: CopyBenchmark, size: usize)
    ensures
        benchmark.cases_of(default_sizes()).contains(
            CopyCase { size, page_size: Some(PageSize::Huge) },
        ) <==> !(benchmark is FdToFd) && default_sizes().contains(size) && size >= 16
            * MB,
{
    let sizes = default_sizes();
    copy_cases_are_complete(benchmark, sizes, CopyCase { size, page_size: Some(PageSize::Huge) });
    if sizes.contains(size) {
        let i = choose|i: int| 0 <= i < sizes.len() && sizes[i] == size;
        default_sizes_with_huge_pages(i);
    }
}

/// Benchmarks are told apart by their groups.
pub proof fn group_names_differ(a: CopyBenchmark, b: CopyBenchmark)
    ensures
        a.group_text() == b.group_text() ==> a == b,
{
    reveal_strlit("process_vm_readv");
    reveal_strlit("mmap_to_file");
    reveal_strlit("mmap_to_mmap");
    reveal_strlit("fd_to_fd");
    reveal_strlit("memfd_to_mmap");
    assert("process_vm_readv"@.len() == 16);
    assert("mmap_to_file"@.len() == 12);
    assert("mmap_to_mmap"@.len() == 12);
    assert("fd_to_fd"@.len() == 8);
    assert("memfd_to_mmap"@.len() == 13);
    assert("mmap_to_file"@[8] != "mmap_to_mmap"@[8]);
}

/// The cases of lists of sizes laid end to end are those of the first and then those
/// of the second. No sizes have no cases.
pub proof fn copy_cases_of_longer_list(benchmark: CopyBenchmark, xs: Seq<usize>, ys: Seq<usize>)
    ensures
        benchmark.cases_of(xs + ys) == benchmark.cases_of(xs) + benchmark.cases_of(ys),
        benchmark.cases_of(Seq::empty()) == Seq::<CopyCase>::empty(),
    decreases ys.len(),
{
    let cases = benchmark.cases_of(xs + ys);
    if ys.len() == 0 {
        assert(xs + ys =~= xs);
        assert(cases =~= benchmark.cases_of(xs) + benchmark.cases_of(ys));
    } else {
        copy_cases_of_longer_list(benchmark, xs, ys.drop_last());
        assert((xs + ys).drop_last() =~= xs + ys.drop_last());
        assert((xs + ys).last() == ys.last());
        assert(cases =~= benchmark.cases_of(xs) + benchmark.cases_of(ys));
    }
}

/// One size has the case of regular pages and, after it, that of huge pages where
/// the size is a multiple of 2 MiB. Between files it has one case, without a page
/// size.
pub proof fn copy_cases_of_single_size(benchmark: CopyBenchmark, size: usize)
    ensures
        ({
            let cases = benchmark.cases_of(seq![size]);
            &&& forall|i: int| 0 <= i < cases.len() ==> (#[trigger] cases[i]).size == size
            &&& benchmark is FdToFd ==> cases.len() == 1 && cases[0].page_size is None
            &&& !(benchmark is FdToFd) ==> {
                &&& cases.len() == (if size % 2097152 == 0 {
                    2nat
                } else {
                    1nat
                })
                &&& cases[0].page_size == Some(PageSize::Standard)
                &&& cases.len() == 2 ==> cases[1].page_size == Some(PageSize::Huge)
            }
        }),
{
    assert(HUGE_PAGE_SIZE == 2097152);
    assert(seq![size].drop_last() =~= Seq::<usize>::empty());
    assert(seq![size].last() == size);
    reveal_with_fuel(CopyBenchmark::cases_of, 2);
    assert(benchmark.cases_of(seq![size]) =~= benchmark.cases_of_size(size));
}

/// A size that is given is copied with regular pages by every benchmark but the copy
/// between files, with huge pages exactly where it is a multiple of 2 MiB, and
/// without a page size between files alone.
pub proof fn copy_cases_by_page_size(benchmark: CopyBenchmark, sizes: Seq<usize>, size: usize)
    ensures
        benchmark.cases_of(sizes).contains(CopyCase { size, page_size: Some(PageSize::Standard) })
            <==> !(benchmark is FdToFd) && sizes.contains(size),
        benchmark.cases_of(sizes).contains(CopyCase { size, page_size: Some(PageSize::Huge) })
            <==> !(benchmark is FdToFd) && sizes.contains(size) && size % 2097152 == 0,
        benchmark.cases_of(sizes).contains(CopyCase { size, page_size: None }) <==> benchmark
            is FdToFd && sizes.contains(size),
{
    assert(HUGE_PAGE_SIZE == 2097152);
    copy_cases_are_complete(
        benchmark,
        sizes,
        CopyCase { size, page_size: Some(PageSize::Standard) },
    );
    copy_cases_are_complete(benchmark, sizes, CopyCase { size, page_size: Some(PageSize::Huge) });
    copy_cases_are_complete(benchmark, sizes, CopyCase { size, page_size: None });
}

} // verus!
