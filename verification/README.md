# mem_bench

Linux memory benchmarks: the throughput of memory-copy mechanisms and the latency
of page faults across memory backings.

`src/` is a verified library. It decides which sizes, page sizes and backings are
measured, what is asked of the kernel for each, and how the kernel's answers are
read. Every function carries a contract that Verus proves.

| Module | Subject |
|---|---|
| `units`, `page_size` | size units, 4 KiB and 2 MiB pages |
| `env`, `sizes`, `text` | `BENCH_DIR` and `BENCH_SIZE`, and how a size is written |
| `copy`, `transfer`, `child` | the copy benchmarks, copies in parts, the forked child |
| `fault` | the page-fault benchmark |
| `mapping`, `memfd`, `fill`, `sys` | what is asked of `mmap`, `memfd_create` and `ftruncate` |

What Verus takes on trust are the constants of `libc` in `sys` and
`char::is_whitespace` in `text`.

`app/` makes the system calls and measures them with Criterion. `tests/` runs the
library on concrete values.

## Configuration

- `BENCH_DIR`: directory for on-disk files. Defaults to the current directory.
- `BENCH_SIZE`: sizes of the copy benchmarks, comma-separated. Each is a raw byte
  count or a number with a `KB`, `MB` or `GB` suffix, such as `256MB,1GB,4GB`.
  Defaults to the full sweep from 4 KiB to 30 GiB.
