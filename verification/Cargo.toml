[package]
name = "gsltctrl"
version = "0.1.0"
edition = "2021"
publish = false

[dependencies]
clap = { version = "=4.6.7", features = ["derive"] }
reqwest = { version = "=0.13.5", default-features = false, features = ["blocking", "query"] }

[dev-dependencies]
serde_json = "=1.0.151"
