[package]
name = "dictflow"
version = "0.3.1"
edition = "2021"
publish = false

[dependencies]
regex = "1"
chrono = "0.4"
serde = { version = "1", features = ["derive"] }
serde_json = "1"
anyhow = "1"
log = "0.4"
hound = "3"
futures-util = "0.3"
tokio = { version = "1", features = ["fs", "io-util", "rt-multi-thread", "sync", "time"] }
reqwest = { version = "0.12", default-features = false, features = ["blocking", "json", "multipart", "stream"] }
arboard = { version = "3", default-features = false }
cpal = "*"
keyring = "3"
enigo = "*"
sherpa-onnx = "*"
