[package]
name = "amm_core"
version = "0.1.0"
edition = "2021"
publish = false

[dependencies]
clap = { version = "4", features = ["derive"] }
color-eyre = "0.6"
eyre = "0.6"
flume = "0.11"
futures = "0.3"
petgraph = "0.6"
serde = { version = "1", features = ["derive"] }
sqlx = { version = "0.7", default-features = false, features = ["runtime-tokio-rustls", "postgres", "bigdecimal"] }
tokio = { version = "1", features = ["rt-multi-thread", "macros", "signal", "time"] }
tokio-util = { version = "0.7", features = ["rt"] }
toml = "0.8"
tracing = "0.1"
tracing-subscriber = "0.3"
