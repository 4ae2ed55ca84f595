[package]
name = "klipper_estimator"
version = "3.7.3"
edition = "2021"
publish = false

[dependencies]
anyhow = "=1.0.104"
clap = { version = "=3.2.25", features = ["derive"] }
config = { version = "=0.13.4", default-features = false, features = ["json", "json5"] }
once_cell = "=1.21.4"
reqwest = { version = "=0.11.27", default-features = false, features = ["blocking", "json"] }
serde = { version = "=1.0.229", features = ["derive"] }
serde_json = "=1.0.154"
sha2 = "=0.10.9"
term_size = "=0.3.2"
thiserror = "=1.0.69"
url = "=2.5.8"
