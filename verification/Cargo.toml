[package]
name = "debian-lsp"
version = "0.1.0"
edition = "2021"
publish = false

[dependencies]
debian-control = "*"
text-size = "*"
tower-lsp = "0.20"
tokio = { version = "1", features = ["io-std", "macros", "rt-multi-thread", "sync"] }
