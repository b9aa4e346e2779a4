[package]
name = "slashing_protection"
version = "0.1.0"
edition = "2021"
publish = false

[dependencies]
hex = "0.4"
serde = { version = "1", features = ["derive"] }
serde_json = "1"
rusqlite = { version = "*", features = ["bundled"] }
clap = "2"
reqwest = { version = "0.11", default-features = false, features = ["json"] }
warp = { version = "0.3", default-features = false }
tokio = { version = "1", features = ["rt-multi-thread", "macros"] }
slog = "2"
futures = "0.3"
