[package]
name = "http_cli"
version = "0.1.0"
edition = "2021"
publish = false

[dependencies]
url = "2"
serde_json = { version = "1", features = ["preserve_order"] }
reqwest = "0.11"
tokio = { version = "1", features = ["macros", "rt-multi-thread"] }
structopt = "0.3"

[dev-dependencies]
regex = "1"
