[package]
name = "jsonrpc_proto"
version = "0.1.0"
edition = "2021"
publish = false

[dependencies]
anyhow = "1"
async-std = { version = "1", features = ["attributes"] }
async-trait = "0.1"
dotenv = "0.15"
fasthash = "*"
http-types = "2"
murmur2 = "*"
rand = "0.8"
redis = "*"
serde = { version = "1", features = ["derive"] }
serde_json = "1"
serde_yaml = "*"
slug = "*"
structopt = "0.3"
tide = "0.16"
tracing = "0.1"
tracing-futures = "0.2"
tracing-subscriber = { version = "0.3", features = ["env-filter"] }
ureq = "2"
