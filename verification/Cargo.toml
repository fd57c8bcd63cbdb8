[package]
name = "direct_connectivity"
version = "0.1.0"
edition = "2021"
publish = false

[dependencies]
aws-lc-rs = "1"
google-cloud-auth = "1"
http = "1"
hyper-util = { version = "0.1", features = ["tokio"] }
moka = { version = "0.12", features = ["future"] }
prost = "0.14"
prost-types = "0.14"
rand = "0.10"
reqwest = { version = "*", default-features = false }
tokio = { version = "1", features = ["io-util", "macros", "net", "rt", "sync", "time"] }
tokio-stream = "0.1"
tonic = { version = "0.14", features = ["tls-aws-lc", "tls-native-roots"] }
tonic-prost = "0.14"
tower = "0.5"
tracing = "0.1"
