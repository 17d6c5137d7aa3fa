[package]
name = "pit-cli"
version = "0.1.0"
edition = "2021"
publish = false

[dependencies]
sha2 = "0.10"
anyhow = "1"
clap = { version = "4", features = ["derive"] }
serde = { version = "1", features = ["derive"] }
serde_json = "1"
toml = "0.8"
tokio = { version = "1", features = ["macros", "rt-multi-thread", "time", "fs"] }
reqwest = { version = "0.12", default-features = false, features = ["json"] }
crossterm = "0.28"
tracing-subscriber = { version = "0.3", features = ["env-filter"] }
