[package]
name = "sudo_ops"
version = "0.1.0"
edition = "2021"
publish = false

[dependencies]
clap = { version = "4", default-features = false, features = ["std", "derive", "help", "usage", "error-context"] }
parity-scale-codec = "3"
subxt = { version = "=0.32.1", default-features = false, features = ["jsonrpsee", "native"] }
subxt-signer = { version = "=0.32.1", default-features = false, features = ["sr25519", "subxt"] }
tokio = { version = "1", features = ["macros", "rt-multi-thread"] }
