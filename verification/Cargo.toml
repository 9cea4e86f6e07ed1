[package]
name = "contractmgr"
version = "0.1.0"
edition = "2021"
publish = false

[dependencies]
uuid = { version = "0.8", features = ["serde", "v4"] }
ciborium = "0.2"
serde = { version = "1", features = ["derive"] }
warp = { version = "0.3", default-features = false }
tokio = { version = "1", features = ["full"] }
tokio-stream = { version = "0.1", features = ["net"] }
futures-core = "0.3"
nix = "0.23"
structopt = "0.3"
async-trait = "0.1"
reqwest = { version = "0.11", default-features = false }
url = "2"
