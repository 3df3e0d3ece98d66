[package]
name = "hfs"
version = "0.1.0"
edition = "2021"
publish = false

[dependencies]
anyhow = "1"
async-trait = "0.1"
clap = { version = "4", features = ["derive"] }
comfy-table = "7"
hdfs-native = "0.9"
parquet = { version = "53", default-features = false }
quick-xml = "0.36"
serde = { version = "1", features = ["derive"] }
serde_json = "1"
thiserror = "1"
tokio = { version = "1", features = ["full"] }
ureq = { version = "2", features = ["json"] }
