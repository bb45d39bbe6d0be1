[package]
name = "mem_bench"
version = "0.1.0"
edition = "2021"
publish = false

[dependencies]
libc = "0.2"
tempfile = "3"
criterion = { version = "0.5", default-features = false }
