[package]
name = "collection_sync"
version = "0.1.0"
edition = "2021"
publish = false

[dependencies]
itertools = "0.10"
regex = "1"
reqwest = { version = "0.11", default-features = false }
rusqlite = { version = "0.29", features = ["bundled"] }
serde = { version = "1", features = ["derive"] }
serde_json = "1"
serde_tuple = "0.5"
snafu = "0.7"
tracing = "0.1"
zip = { version = "0.6", default-features = false }
