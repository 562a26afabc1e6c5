[package]
name = "seqfetch"
version = "0.1.0"
edition = "2021"
publish = false

[dependencies]
bytes = "*"
futures-timer = "*"
regex = "*"
reqwest = "*"
serde = { version = "*", features = ["derive"] }
serde_json = "*"
tokio = { version = "*", features = ["macros", "rt-multi-thread", "fs", "sync"] }
