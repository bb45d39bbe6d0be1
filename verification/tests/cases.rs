use mem_bench::copy::{CopyBenchmark, CopyCase};
use mem_bench::env::EnvVar;
use mem_bench::fault::{fault_cases, Backing, FaultCase, N_FAULT_PAGES};
use mem_bench::sizes::bench_sizes;
use mem_bench::{PageSize, GB, KB, MB};

#[test]
fn page_size_labels() {
    assert_eq!(PageSize::Standard.label(), "4k");
    assert_eq!(PageSize::Huge.label(), "2m");
    assert_eq!(PageSize::ALL, [PageSize::Standard, PageSize::Huge]);
}

#[test]
fn page_size_bytes() {
    assert_eq!(PageSize::Standard.bytes(), 4096);
    assert_eq!(PageSize::Huge.bytes(), 2097152);
}

#[test]
fn huge_pages_need_a_multiple_of_their_size() {
    for size in [0, 1, 4096, MB, 2 * MB - 1, 2 * MB, 3 * MB, 16 * MB, 30 * GB, usize::MAX] {
        assert!(PageSize::Standard.is_size_compatible(size));
        assert_eq!(PageSize::Huge.is_size_compatible(size), size % 2097152 == 0);
    }
    assert!(PageSize::Huge.is_size_compatible(0));
    assert!(!PageSize::Huge.is_size_compatible(MB));
    assert!(PageSize::Huge.is_size_compatible(16 * MB));
}

fn case(size: usize, page_size: PageSize) -> CopyCase {
    CopyCase { size, page_size: Some(page_size) }
}

#[test]
fn copy_cases_by_size_and_page_size() {
    let expected = vec![
        case(4 * KB, PageSize::Standard),
        case(4 * MB, PageSize::Standard),
        case(4 * MB, PageSize::Huge),
        case(MB, PageSize::Standard),
    ];
    for benchmark in [
        CopyBenchmark::ProcessVmReadv,
        CopyBenchmark::MmapToFile,
        CopyBenchmark::MmapToMmap,
        CopyBenchmark::MemfdToMmap,
    ] {
        assert_eq!(benchmark.cases(&[4 * KB, 4 * MB, MB]), expected);
        assert_eq!(benchmark.cases(&[]), vec![]);
    }
}

#[test]
fn copies_between_files_have_no_page_size() {
    assert_eq!(
        CopyBenchmark::FdToFd.cases(&[4 * MB, KB]),
        vec![
            CopyCase { size: 4 * MB, page_size: None },
            CopyCase { size: KB, page_size: None },
        ],
    );
}

#[test]
fn huge_pages_start_at_16_mib_in_the_full_sweep() {
    let sizes = bench_sizes(&EnvVar::Unset).unwrap();
    for benchmark in CopyBenchmark::ALL {
        let cases = benchmark.cases(&sizes);
        let huge: Vec<usize> = cases
            .iter()
            .filter(|c| c.page_size == Some(PageSize::Huge))
            .map(|c| c.size)
            .collect();
        if benchmark == CopyBenchmark::FdToFd {
            assert_eq!(cases.len(), 9);
            assert!(huge.is_empty());
        } else {
            assert_eq!(cases.len(), 15);
            assert_eq!(huge, vec![16 * MB, 256 * MB, GB, 4 * GB, 16 * GB, 30 * GB]);
        }
    }
}

#[test]
fn copy_group_names() {
    let names: Vec<&str> = CopyBenchmark::ALL.iter().map(|b| b.group()).collect();
    assert_eq!(
        names,
        vec!["process_vm_readv", "mmap_to_file", "mmap_to_mmap", "fd_to_fd", "memfd_to_mmap"],
    );
}

#[test]
fn backing_labels() {
    let names: Vec<&str> = Backing::ALL.iter().map(|b| b.label()).collect();
    assert_eq!(names, vec!["anon", "file", "memfd"]);
}

#[test]
fn only_files_lack_huge_pages() {
    assert!(Backing::Anonymous.supports_huge_pages());
    assert!(!Backing::File.supports_huge_pages());
    assert!(Backing::Memfd.supports_huge_pages());
}

#[test]
fn the_five_fault_cases() {
    let names: Vec<String> = fault_cases()
        .iter()
        .map(|c| format!("{}/{}", c.backing.label(), c.page_size.label()))
        .collect();
    assert_eq!(names, vec!["anon/4k", "anon/2m", "file/4k", "memfd/4k", "memfd/2m"]);
}

#[test]
fn fault_region_sizes() {
    let standard = FaultCase { backing: Backing::File, page_size: PageSize::Standard };
    let huge = FaultCase { backing: Backing::Memfd, page_size: PageSize::Huge };
    assert_eq!(N_FAULT_PAGES, 128);
    assert_eq!(standard.region_bytes(), 512 * KB);
    assert_eq!(huge.region_bytes(), 256 * MB);
    assert!(PageSize::Huge.is_size_compatible(huge.region_bytes()));
}

#[test]
fn each_page_of_the_region_is_touched() {
    for case in fault_cases() {
        let step = case.page_size.bytes();
        let expected: Vec<usize> = (0..case.region_bytes()).step_by(step).collect();
        assert_eq!(case.offsets(), expected);
        assert_eq!(expected.len(), 128);
        assert_eq!(expected[127], case.region_bytes() - step);
    }
}
