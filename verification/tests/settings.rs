use mem_bench::env::{bench_dir, BenchDir, EnvVar};
use mem_bench::sizes::{
    bench_sizes, parse_size, parse_sizes, try_parse_size, SizeError, SizeListError,
};
use mem_bench::{GB, HUGE_PAGE_SIZE, KB, MB};

fn text(s: &str) -> EnvVar {
    EnvVar::Text(s.to_string())
}

#[test]
fn units_are_powers_of_two() {
    assert_eq!(KB, 1 << 10);
    assert_eq!(MB, 1 << 20);
    assert_eq!(GB, 1 << 30);
    assert_eq!(HUGE_PAGE_SIZE, 2 * 1024 * 1024);
}

#[test]
fn bench_dir_is_the_given_directory() {
    assert_eq!(bench_dir(text("/mnt/nvme")), BenchDir::Path("/mnt/nvme".to_string()));
    assert_eq!(bench_dir(text("")), BenchDir::Path(String::new()));
}

#[test]
fn bench_dir_defaults_to_the_current_directory() {
    assert_eq!(bench_dir(EnvVar::Unset), BenchDir::CurrentDir);
    assert_eq!(bench_dir(EnvVar::NotUnicode), BenchDir::CurrentDir);
    assert_eq!(mem_bench::bench_dir(EnvVar::Unset), BenchDir::CurrentDir);
}

#[test]
fn sizes_with_and_without_suffix() {
    assert_eq!(parse_size("4096"), Some(4096));
    assert_eq!(parse_size("0"), Some(0));
    assert_eq!(parse_size("64KB"), Some(65536));
    assert_eq!(parse_size("256MB"), Some(268435456));
    assert_eq!(parse_size("1GB"), Some(1073741824));
    assert_eq!(parse_size("30GB"), Some(32212254720));
    assert_eq!(parse_size("+7KB"), Some(7168));
    assert_eq!(parse_size("0000000000000000000000000000000012"), Some(12));
}

#[test]
fn white_space_around_a_size() {
    assert_eq!(parse_size("  16 MB\n"), Some(16 * MB));
    assert_eq!(parse_size("\u{3000}3\u{a0}KB\u{2028}"), Some(3 * KB));
    assert_eq!(parse_size("\t5 "), Some(5));
}

#[test]
fn texts_that_are_no_sizes() {
    for s in ["", " ", "GB", " KB", "+", "+GB", "-1", "1 2", "1kb", "1TB", "1.5GB", "1_000", "0x10"] {
        assert_eq!(parse_size(s), None, "{s:?}");
        assert_eq!(try_parse_size(s), Err(SizeError::Invalid), "{s:?}");
    }
    assert_eq!(parse_size("1BB"), None);
    assert_eq!(parse_size("B"), None);
    assert_eq!(parse_size("1KBKB"), None);
    assert_eq!(parse_size("\u{663}"), None);
    assert_eq!(parse_size("1,2"), None);
}

#[test]
fn the_largest_number_and_the_next() {
    assert_eq!(parse_size("18446744073709551615"), Some(usize::MAX));
    assert_eq!(parse_size("18446744073709551616"), None);
    assert_eq!(parse_size("99999999999999999999999"), None);
    assert_eq!(parse_size("18446744073709551616GB"), None);
}

#[test]
fn a_size_that_does_not_fit() {
    assert_eq!(try_parse_size("17179869183GB"), Ok(17179869183 * GB));
    assert_eq!(try_parse_size("17179869184GB"), Err(SizeError::TooLarge));
    assert_eq!(try_parse_size("18446744073709551615KB"), Err(SizeError::TooLarge));
    assert_eq!(try_parse_size("18446744073709551615"), Ok(usize::MAX));
}

#[test]
fn numbers_read_as_the_standard_library_reads_them() {
    let texts = [
        "1", "12", "+12", "++12", "+-1", "-0", "007", "1e3", "", "+", "٣", "18446744073709551615",
        "18446744073709551616", "+18446744073709551615", "0000000000000000000000", "9a", "a9", "1 1",
    ];
    for s in texts {
        assert_eq!(parse_size(s), s.parse::<usize>().ok(), "{s:?}");
    }
}

#[test]
fn white_space_is_that_of_the_standard_library() {
    for c in (0..=0x10ffffu32).filter_map(char::from_u32) {
        let padded = format!("{c}7{c}");
        if c.is_whitespace() {
            assert_eq!(try_parse_size(&padded), Ok(7), "{c:?}");
        } else if !c.is_ascii_digit() {
            assert_eq!(try_parse_size(&padded), Err(SizeError::Invalid), "{c:?}");
        }
    }
}

#[test]
fn a_list_of_sizes() {
    assert_eq!(bench_sizes(&text("1GB")), Ok(vec![GB]));
    assert_eq!(bench_sizes(&text("256MB,1GB,4GB")), Ok(vec![256 * MB, GB, 4 * GB]));
    assert_eq!(bench_sizes(&text(" 4096 , 4 KB ")), Ok(vec![4096, 4096]));
    assert_eq!(parse_sizes("3,2,1"), Ok(vec![3, 2, 1]));
}

#[test]
fn the_first_wrong_entry_is_reported() {
    let invalid = |entry: &str| {
        Err(SizeListError { entry: entry.to_string(), cause: SizeError::Invalid })
    };
    assert_eq!(bench_sizes(&text("")), invalid(""));
    assert_eq!(bench_sizes(&text("1GB,")), invalid(""));
    assert_eq!(bench_sizes(&text(",1GB")), invalid(""));
    assert_eq!(bench_sizes(&text("1GB, 2 TB ,x")), invalid(" 2 TB "));
    assert_eq!(bench_sizes(&text("1;2")), invalid("1;2"));
    assert_eq!(
        bench_sizes(&text("1,18446744073709551615GB,x")),
        Err(SizeListError {
            entry: "18446744073709551615GB".to_string(),
            cause: SizeError::TooLarge,
        }),
    );
    assert_eq!(bench_sizes(&text("\u{e9},1")), invalid("\u{e9}"));
}

#[test]
fn the_full_sweep_by_default() {
    let sweep = vec![
        4096,
        65536,
        1048576,
        16777216,
        268435456,
        1073741824,
        4294967296,
        17179869184,
        32212254720,
    ];
    assert_eq!(bench_sizes(&EnvVar::Unset), Ok(sweep.clone()));
    assert_eq!(bench_sizes(&EnvVar::NotUnicode), Ok(sweep));
    assert_eq!(
        bench_sizes(&EnvVar::Unset),
        parse_sizes("4KB,64KB,1MB,16MB,256MB,1GB,4GB,16GB,30GB"),
    );
}

#[test]
fn a_temporary_file() {
    let file = mem_bench::env::temp_file(text("/mnt/hdd"), 4096);
    assert_eq!(file.dir, BenchDir::Path("/mnt/hdd".to_string()));
    assert_eq!(file.len, 4096);
    assert_eq!(mem_bench::env::temp_file(EnvVar::Unset, 0).dir, BenchDir::CurrentDir);
}
