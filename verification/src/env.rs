//! Settings that come from environment variables.

use vstd::prelude::*;

verus! {

/// The outcome of looking up an environment variable.
#[derive(Debug, PartialEq, Eq)]
pub enum EnvVar {
    /// The variable is set to this text.
    Text(String),
    /// The variable is not set.
    Unset,
    /// The variable is set to something that is not Unicode text.
    NotUnicode,
}

/// Where on-disk files are created.
#[derive(Debug, PartialEq, Eq)]
pub enum BenchDir {
    /// This directory.
    Path(String),
    /// The current directory of the process.
    CurrentDir,
}

/// The directory that a value of `BENCH_DIR` stands for.
pub open spec fn chosen_dir(var: EnvVar) -> BenchDir {
    match var {
        EnvVar::Text(path) => BenchDir::Path(path),
        EnvVar::Unset => BenchDir::CurrentDir,
        EnvVar::NotUnicode => BenchDir::CurrentDir,
    }
}

/// The directory used for real on-disk files, as the variable `BENCH_DIR` asks
/// for it: the current directory unless the variable holds text.
pub fn bench_dir(var: EnvVar) -> (dir: BenchDir)
    ensures
        dir == chosen_dir(var),
        match var {
            EnvVar::Text(path) => dir == BenchDir::Path(path),
            EnvVar::Unset | EnvVar::NotUnicode => dir is CurrentDir,
        },
{
    match var {
        EnvVar::Text(path) => BenchDir::Path(path),
        EnvVar::Unset => BenchDir::CurrentDir,
        EnvVar::NotUnicode => BenchDir::CurrentDir,
    }
}

/// A temporary file to make.
#[derive(Debug, PartialEq, Eq)]
pub struct TempFile {
    /// The directory it lives in.
    pub dir: BenchDir,
    /// Its length in bytes.
    pub len: u64,
}

/// A real on-disk temporary file of `size` bytes, in the directory that the
/// variable `BENCH_DIR` asks for.
pub fn temp_file(var: EnvVar, size: usize) -> (file: TempFile)
    ensures
        file.dir == chosen_dir(var),
        match var {
            EnvVar::Text(path) => file.dir == BenchDir::Path(path),
            EnvVar::Unset | EnvVar::NotUnicode => file.dir is CurrentDir,
        },
        file.len == size,
{
    TempFile { dir: bench_dir(var), len: size as u64 }
}

/// Whatever text the variable holds is the directory, and the current directory is
/// used only where it holds none.
pub proof fn text_is_the_directory(path: String, var: EnvVar)
    ensures
        chosen_dir(EnvVar::Text(path)) == BenchDir::Path(path),
        chosen_dir(var) == BenchDir::Path(path) <==> var == EnvVar::Text(path),
        chosen_dir(var) is CurrentDir <==> var is Unset || var is NotUnicode,
{
}

} // verus!
