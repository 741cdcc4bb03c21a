[package]
name = "utopia_core"
version = "0.1.0"
edition = "2021"
publish = false

[dependencies]
serde = { version = "*", features = ["derive"] }
serde_json = "*"
tokio = { version = "*", features = ["full"] }
futures = "*"
libc = "*"
libloading = "*"
redis = "*"
tinytemplate = "*"
failure = "*"
