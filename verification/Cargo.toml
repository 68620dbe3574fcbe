[package]
name = "frp_launcher"
version = "0.1.0"
edition = "2021"
publish = false

[dependencies]
chrono = "=0.4.45"
futures-util = "0.3"
hex = "=0.4.3"
log = "0.4"
reqwest = { version = "0.12", default-features = false, features = ["json", "stream"] }
serde = { version = "1", features = ["derive"] }
serde_json = "1"
sha2 = "=0.10.9"
strip-ansi-escapes = "=0.2.1"
tauri = { version = "2", default-features = false, features = ["wry"] }
tokio = { version = "1", features = ["rt", "time"] }
