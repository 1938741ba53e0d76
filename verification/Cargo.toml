[package]
name = "rcore_kernel"
version = "0.1.0"
edition = "2021"
publish = false

[dependencies]
log = "0.4"
lazy_static = "1.4"
riscv = "0.10"
