[package]
name = "rust_img"
version = "0.1.0"
edition = "2021"
publish = false

[dependencies]
image = { version = "=0.24.9", default-features = false, features = ["png"] }
libc = "=0.2.190"
llvm-sys = { version = "=140.1.3", features = ["prefer-dynamic"] }
