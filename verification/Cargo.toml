[package]
name = "proserpina"
version = "0.3.0"
edition = "2021"
publish = false

[dependencies]
rand = "0.9"
sha2 = "0.10"
base64 = "0.22"
hex = "0.4"
serde_json = "1"
serde = { version = "1", features = ["derive"] }
toml = "0.8"
thiserror = "2"
clap = { version = "4", features = ["derive"] }
reqwest = { version = "0.12", default-features = false, features = ["json", "rustls-tls"] }
tokio = { version = "1", features = ["rt", "rt-multi-thread", "time", "net", "macros", "io-util"] }
keyring = { version = "3", default-features = false }
webbrowser = "1"
