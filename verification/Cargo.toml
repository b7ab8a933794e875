[package]
name = "oxidar-snake"
version = "0.1.0"
edition = "2021"
publish = false

[dependencies]
anyhow = "1"
futures-util = { version = "0.3", default-features = false, features = ["sink", "std"] }
rand = "*"
reqwest = { version = "*", default-features = false, features = ["json"] }
rmp-serde = "1"
serde = { version = "1", features = ["derive"] }
tokio = { version = "1", features = ["rt-multi-thread", "macros", "net", "sync", "time", "signal", "io-util"] }
tokio-tungstenite = "*"
toml = "*"
tracing = "0.1"
tracing-subscriber = "0.3"
