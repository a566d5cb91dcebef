[package]
name = "systrace"
version = "0.1.0"
edition = "2021"
publish = false

[dependencies]
libc = "*"
log = "*"
nix = { version = "*", features = ["ptrace", "signal", "process", "uio", "mman", "fs"] }
