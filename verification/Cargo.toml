[package]
name = "appfence"
version = "0.1.0"
edition = "2021"
publish = false

[dependencies]
anyhow = "*"
clap = { version = "*", features = ["derive"] }
hex = "*"
nix = { version = "*", features = ["user", "fs"] }
rusqlite = { version = "*", features = ["bundled"] }
serde = { version = "*", features = ["derive"] }
serde_json = "*"
sha2 = "*"
tokio = { version = "*", features = ["rt-multi-thread", "macros", "signal", "sync"] }
tracing = "*"
tracing-subscriber = "*"
uuid = { version = "*", features = ["v4"] }
