//! Decisions behind a suite of Linux memory benchmarks: which sizes, page sizes
//! and backings are measured, what is asked of the kernel, and how its answers are
//! read.

pub mod child;
pub mod copy;
pub mod env;
pub mod fault;
pub mod fill;
pub mod mapping;
pub mod memfd;
pub mod page_size;
pub mod sizes;
pub mod sys;
pub mod text;
pub mod transfer;
pub mod units;

pub use env::bench_dir;
pub use page_size::PageSize;
pub use units::{GB, HUGE_PAGE_SIZE, KB, MB};
