[package]
name = "pact_proxy"
version = "0.1.0"
edition = "2021"
publish = false

[dependencies]
url = "*"
serde_json = "*"
rand = "*"
pact_models = "*"
tiny_http = "*"
reqwest = "*"
tokio = { version = "*", features = ["rt", "time", "macros"] }
clap = { version = "*", features = ["cargo"] }
tracing = "*"
tracing-subscriber = "*"
bytes = "*"
http = "*"
