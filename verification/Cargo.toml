[package]
name = "tidal_rs"
version = "0.1.0"
edition = "2021"
publish = false

[dependencies]
base64 = "0.22"
chrono = "0.4"
clap = { version = "4", features = ["derive"] }
dotenv = "0.15"
futures-util = "0.3"
indicatif = "0.17"
reqwest = { version = "0.12", features = ["json", "stream"] }
serde = { version = "1", features = ["derive"] }
serde_json = "1"
terminal-menu = "3"
tokio = { version = "1", features = ["full"] }
