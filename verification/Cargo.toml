[package]
name = "drown"
version = "0.1.0"
edition = "2021"
publish = false

[dependencies]
bytes = "*"
clap = { version = "*", features = ["derive"] }
futures = "*"
once_cell = "*"
serde = { version = "*", features = ["derive"] }
serde_json = "*"
tokio = { version = "*", features = ["macros", "net", "rt-multi-thread", "sync", "time", "io-util"] }
tokio-util = { version = "*", features = ["codec"] }
url = "*"
