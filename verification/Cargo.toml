[package]
name = "augmcp"
version = "0.1.0"
edition = "2021"
publish = false

[dependencies]
anyhow = "*"
axum = "*"
clap = { version = "*", features = ["derive"] }
dunce = "*"
encoding_rs = "*"
globset = "*"
home = "*"
ignore = "*"
parking_lot = "*"
pathdiff = "*"
reqwest = { version = "*", default-features = false, features = ["json"] }
serde = { version = "*", features = ["derive"] }
serde_json = "*"
sha2 = "*"
tokio = { version = "*", features = ["macros", "net", "rt", "rt-multi-thread", "signal", "time"] }
toml = "*"
