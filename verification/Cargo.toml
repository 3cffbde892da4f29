[package]
name = "bindgen"
version = "0.1.0"
edition = "2021"
publish = false

[dependencies]
clang-sys = { version = "1", features = ["runtime", "clang_6_0"] }
libc = "0.2"
