[package]
name = "scoreboard_engine"
version = "0.1.0"
edition = "2021"
publish = false

[dependencies]
anyhow = "*"
dotenv = "*"
futures = "*"
redis = { version = "*", features = ["tokio-comp"] }
riven = "2"
tokio = { version = "*", features = ["macros", "rt-multi-thread", "time"] }
tracing = "*"
tracing-subscriber = "*"
twilight-cache-inmemory = "0.15"
twilight-gateway = "0.15"
twilight-http = "0.15"
twilight-model = "0.15"
twilight-util = { version = "0.15", features = ["builder"] }
