[package]
name = "x64wasm"
version = "0.1.0"
edition = "2021"
publish = false

[dependencies]
iced-x86 = "=1.21.0"
wasm-encoder = "=0.261.0"
object = { version = "=0.40.0", features = ["write"] }
libc = "=0.2.190"
