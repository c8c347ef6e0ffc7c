[package]
name = "asan_runtime"
version = "0.1.0"
edition = "2021"
publish = false

[dependencies]
syscalls = "*"
spin = "0.9"
log = "0.4"
thiserror = "1"
serde = { version = "1", features = ["derive"] }
postcard = { version = "1", features = ["alloc"] }
num_enum = "*"
strum = "*"
strum_macros = "*"
typed-builder = "*"
