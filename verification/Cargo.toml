[package]
name = "neocities_sync"
version = "0.1.0"
edition = "2021"
publish = false

[dependencies]
anyhow = "=1.0.104"
base64 = "=0.22.1"
clap = { version = "=4.6.7", features = ["derive"] }
colored = "=2.2.0"
directories = "=5.0.1"
futures = "=0.3.34"
fxhash = "=0.2.1"
glob = "=0.3.4"
inquire = "=0.7.5"
keyring = "=2.3.3"
pathdiff = "=0.2.3"
reqwest = { version = "=0.12.28", features = ["json", "multipart"] }
serde = { version = "=1.0.229", features = ["derive"] }
sha1 = "=0.10.7"
tokio = { version = "=1.54.1", features = ["full"] }
