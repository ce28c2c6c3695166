[package]
name = "gastank"
version = "0.1.0"
edition = "2021"
publish = false

[dependencies]
anyhow = "1"
clap = { version = "4", features = ["derive", "env"] }
ethrex-common = "=31.0.0"
ethrex-l2-common = "=31.0.0"
hex = "0.4"
rand = "0.8"
secp256k1 = { version = "0.30", features = ["recovery", "global-context"] }
serde = { version = "1", features = ["derive"] }
serde_json = "1"
tokio = { version = "1", features = ["macros", "rt-multi-thread"] }
url = "2"
