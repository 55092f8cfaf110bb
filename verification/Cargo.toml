[package]
name = "wiki_extract"
version = "0.1.0"
edition = "2021"
publish = false

[dependencies]
zstd = "*"
serde = { version = "*", features = ["derive"] }
serde_json = "*"
clap = { version = "*", features = ["derive"] }
crossbeam = "*"
rusqlite = { version = "*", features = ["bundled"] }
anyhow = "*"
thiserror = "*"
