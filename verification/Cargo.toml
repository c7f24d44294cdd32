[package]
name = "mchat"
version = "0.1.0"
edition = "2021"
publish = false

[dependencies]
bytes = "*"
chrono = "*"
tokio = { version = "*", features = ["sync", "net", "io-util", "rt-multi-thread", "macros", "time"] }
uuid = { version = "*", features = ["v4"] }
serde = { version = "*", features = ["derive"] }
toml = "*"
fern = "*"
log = "*"
