[package]
name = "thinking_space"
version = "0.1.0"
edition = "2021"
publish = false

[dependencies]
agent-client-protocol = "=0.15.1"
agent-client-protocol-schema = "*"
async-trait = "=0.1.92"
chrono = "=0.4.45"
dirs = "=7.0.0"
opener = "=0.9.0"
parking_lot = "=0.12.5"
rusqlite = { version = "=0.40.2", features = ["bundled"] }
serde = { version = "=1.0.229", features = ["derive"] }
serde_json = "=1.0.151"
tokio = { version = "=1.53.2", features = ["full"] }
tokio-util = { version = "=0.7.19", features = ["compat"] }
uuid = { version = "=1.27.0", features = ["v4"] }
