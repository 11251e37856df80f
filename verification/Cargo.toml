[package]
name = "catalog_bench"
version = "0.1.0"
edition = "2021"
publish = false

[dependencies]
anyhow = "1"
arrow = { version = "58", default-features = false }
clap = { version = "4", features = ["derive"] }
datafusion = { version = "53", default-features = false, features = ["parquet"] }
object_store = { version = "0.13", features = ["aws"] }
parquet = { version = "58", default-features = false, features = ["arrow", "snap"] }
reqwest = { version = "0.12", default-features = false, features = ["json"] }
serde = { version = "1", features = ["derive"] }
serde_json = "1"
tokio = { version = "1", features = ["macros", "rt-multi-thread", "sync", "time"] }
url = "2"
