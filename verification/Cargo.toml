[package]
name = "vericto"
version = "1.4.2"
edition = "2021"
publish = false

[dependencies]
anstream = "0.6"
anstyle = "1"
base64 = "0.22"
clap = { version = "4", features = ["derive", "env"] }
clap_complete = "4"
dirs = "5"
ed25519-dalek = { version = "2", features = ["pem", "pkcs8"] }
getrandom = "0.2"
reqwest = { version = "0.12", default-features = false, features = ["json", "rustls-tls"] }
serde = { version = "1", features = ["derive"] }
serde_json = "1"
sha2 = "0.10"
tokio = { version = "1", features = ["macros", "rt-multi-thread", "sync", "time"] }
toml = "0.8"
