[package]
name = "wasm_jit"
version = "0.1.0"
edition = "2021"
publish = false

[dependencies]
anyhow = "1"
fxhash = "0.2"
libc = "0.2"
thiserror = "1"
wasmparser = "*"

[dev-dependencies]
iced-x86 = { version = "1", default-features = false, features = ["std", "decoder"] }
