[package]
name = "arbitrum_cli"
version = "0.1.0"
edition = "2021"
publish = false

[dependencies]
hex = "0.4"
serde_json = "1"
eyre = "0.6"
clap = { version = "4", features = ["derive", "env"] }
colored = "2"
reqwest = { version = "0.12", default-features = false, features = ["json", "rustls-tls"] }
tokio = { version = "1", features = ["macros", "rt-multi-thread", "time"] }
