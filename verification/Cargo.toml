[package]
name = "azure_storage_cli"
version = "0.1.0"
edition = "2021"
publish = false

[dependencies]
azure_core = "0.21"
azure_storage = "0.21"
azure_storage_blobs = "0.21"
azure_storage_datalake = "0.21"
azure_identity = "0.21"
clap = { version = "4", features = ["derive", "env"] }
tokio = { version = "1", features = ["full"] }
uuid = "1"
time = "0.3"
duration-string = "0.3"
futures = "0.3"
anyhow = "1"
