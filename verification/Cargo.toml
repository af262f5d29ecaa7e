[package]
name = "webshot"
version = "0.1.0"
edition = "2021"
publish = false

[dependencies]
governor = "0.6"
sha1 = "0.10"
opendal = { version = "0.45", default-features = false, features = ["services-fs"] }
url = "2"
serde = { version = "1", features = ["derive"] }
serde_json = "1"
serde_qs = "0.12"
tide = "0.16"
tokio = { version = "1", features = ["rt-multi-thread", "macros"] }
futures = "0.3"
chromiumoxide = { version = "0.5", default-features = false, features = ["tokio-runtime"] }
chrono = "0.4"
async-std = "1"
lazy_static = "1"
tracing = "0.1"
tracing-subscriber = { version = "0.3", features = ["env-filter"] }
tide-tracing = "*"
