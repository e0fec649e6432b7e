[package]
name = "twizzler_security"
version = "0.1.0"
edition = "2021"
publish = false

[dependencies]
anyhow = "1"
clap = { version = "4", features = ["derive"] }
fs_extra = "1"
futures-util = "0.3"
getrandom = "0.2"
git2 = "0.19"
guess_host_triple = "0.1"
indicatif = "0.17"
p256 = { version = "0.13", features = ["ecdsa"] }
reqwest = { version = "0.12", default-features = false, features = ["stream"] }
sha2 = "0.10"
tokio = { version = "1", features = ["rt"] }
