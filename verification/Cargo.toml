[package]
name = "mpris_presence"
version = "0.1.0"
edition = "2021"
publish = false

[dependencies]
math-text-transform = "=0.1.1"
serde = { version = "=1.0.229", features = ["derive"] }
serde_json = "=1.0.154"
tokio = { version = "=1.54.1", features = ["rt", "rt-multi-thread"] }
zbus = "=5.19.0"
zvariant = "=5.15.1"
dotenvy = "=0.15.7"
discord-rpc-client = "=0.4.0"
