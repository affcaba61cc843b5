[package]
name = "riscv_dm"
version = "0.1.0"
edition = "2021"
publish = false

[dependencies]
anyhow = "1"
bitfield = "0.14"
log = "0.4"
probe-rs-target = "*"
thiserror = "1"
