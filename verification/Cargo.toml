[package]
name = "binance_core"
version = "0.1.0"
edition = "2021"
publish = false

[dependencies]
hmac = "0.12"
sha2 = "0.10"
serde = { version = "1", features = ["derive"] }
serde_json = "1"
rust_decimal = "1"
reqwest = { version = "*", default-features = false, features = ["blocking", "json"] }
tungstenite = "*"
url = "2"
thiserror = "*"
