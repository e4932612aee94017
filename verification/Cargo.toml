[package]
name = "smol_launcher"
version = "0.1.0"
edition = "2021"
publish = false

[dependencies]
sha1_smol = "1"
anyhow = "1"
directories = "*"
futures = "0.3"
nanoserde = "*"
native-dialog = "*"
reqwest = { version = "0.12", default-features = false }
tokio = { version = "1", features = ["full"] }
