[package]
name = "kuber"
version = "0.1.0"
edition = "2021"
publish = false

[dependencies]
anyhow = "1"
clap = { version = "4", features = ["derive"] }
colored = "*"
libc = "0.2"
serde = { version = "1", features = ["derive"] }
serde_json = "1"
skim = "*"
tokio = { version = "1", features = ["macros", "rt-multi-thread"] }
