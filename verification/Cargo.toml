[package]
name = "freighter"
version = "0.1.0"
edition = "2021"
publish = false

[dependencies]
sha2 = "=0.11.0"
url = "=2.5.8"
chrono = "=0.4.45"
dirs = "=7.0.0"
serde = { version = "=1.0.229", features = ["derive"] }
serde_json = "=1.0.151"
toml = "=1.1.7"
bytes = "=1.12.1"
walkdir = "=2.5.0"
threadpool = "=1.8.1"
rayon = "=1.12.0"
clap = "=4.6.7"
reqwest = { version = "=0.12.28", default-features = false, features = ["blocking", "rustls-tls"] }
git2 = { version = "=0.21.0", default-features = false }
tokio = { version = "=1.53.2", features = ["rt-multi-thread", "macros", "process", "io-util", "fs"] }
tokio-util = { version = "=0.7.19", features = ["codec"] }
warp = { version = "=0.4.3", features = ["server"] }
