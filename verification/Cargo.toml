[package]
name = "pyoxidizer"
version = "0.1.0"
edition = "2021"
publish = false

[dependencies]
cargo_toml = "0.14"
encoding_rs = "0.8"
glob = "0.3"
itertools = "0.8"
serde = { version = "1", features = ["derive"] }
serde_cbor = "0.10"
slog = "2"
starlark = "0.2"
