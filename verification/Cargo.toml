[package]
name = "concord"
version = "0.1.0"
edition = "2021"
publish = false

[dependencies]
base64 = "=0.13.1"
urlencoding = "=2.1.3"
bs58 = "=0.4.0"
url = "=2.3.1"
querystring = "=1.1.0"
substring = "=1.4.5"
ed25519-dalek = "=1.0.1"
rand = "0.8"
serde = { version = "1", features = ["derive"] }
serde_json = "1"
lmdb-zero = "0.4"
dirs = "4"
fsutils = "0.1"
socks = "0.3"
tor-stream = "0.3"
clap = "2.34"
