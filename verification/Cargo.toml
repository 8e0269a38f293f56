[package]
name = "mpc_rust"
version = "0.1.0"
edition = "2021"
publish = false

[dependencies]
rand = "*"
sha2 = "*"
serde = { version = "1", features = ["derive"] }
serde_json = "1"
bincode = "1"
clap = { version = "4", features = ["derive"] }
dotenvy = "0.15"
tokio = { version = "1", features = ["macros", "rt-multi-thread", "net", "io-util", "sync", "time"] }
reqwest = { version = "0.12", default-features = false, features = ["json", "rustls-tls"] }
