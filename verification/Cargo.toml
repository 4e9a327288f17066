[package]
name = "open_course"
version = "0.1.0"
edition = "2021"
publish = false

[dependencies]
unicode-normalization = "=0.1.26"
uuid = { version = "=1.29.0", features = ["v7"] }
serde = { version = "=1.0.229", features = ["derive"] }
serde_json = "=1.0.154"
regex = "=1.13.1"
clap = { version = "=4.6.7", features = ["derive"] }
dirs = "=7.0.0"
anyhow = "=1.0.104"
chrono = "=0.4.45"
tokio = { version = "1", features = ["macros", "rt-multi-thread", "time"] }
reqwest = { version = "0.12", default-features = false, features = ["json", "rustls-tls"] }
