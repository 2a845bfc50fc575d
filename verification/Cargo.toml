[package]
name = "session_gate"
version = "0.1.0"
edition = "2021"
publish = false

[dependencies]
jsonwebtoken = { version = "=11.1.0", features = ["rust_crypto"] }
base64 = "=0.23.1"
tungstenite = "=0.30.0"
rusqlite = { version = "=0.40.2", features = ["bundled"] }
ctrlc = "=3.5.2"
serde = { version = "=1.0.229", features = ["derive"] }
