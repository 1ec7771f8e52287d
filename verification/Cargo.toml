[package]
name = "helix_picker"
version = "0.1.0"
edition = "2021"
publish = false

[dependencies]
anyhow = "1"
futures-util = { version = "0.3", default-features = false, features = ["std"] }
nucleo = "0.5"
serde = { version = "1", features = ["derive"] }
thiserror = "2"
tokio = { version = "1", features = ["rt", "sync", "macros"] }
unicode-segmentation = "1"
unicode-width = "0.1"
