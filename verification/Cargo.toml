[package]
name = "wirescript"
version = "0.1.0"
edition = "2021"
publish = false

[dependencies]
mimalloc = "0.1"
serde = { version = "1", features = ["derive"] }
serde_json = "1"
tokio = { version = "1", features = ["rt-multi-thread", "macros", "io-std", "io-util"] }
tower-lsp = "0.20"
