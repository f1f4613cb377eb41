[package]
name = "theia"
version = "0.1.0"
edition = "2021"
publish = false

[dependencies]
color-eyre = "=0.6.5"
displaydoc = "=0.2.7"
dotenv = "=0.15.0"
serde = { version = "=1.0.229", features = ["derive"] }
serde_json = "=1.0.154"
serenity = "=0.10.10"
tokio = { version = "=1.54.1", features = ["io-util", "macros", "process", "rt-multi-thread", "time"] }
toml = "=0.5.11"
tracing = "=0.1.44"
tracing-subscriber = "=0.3.23"
