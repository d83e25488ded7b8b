[package]
name = "jsco"
version = "0.1.0"
edition = "2021"
publish = false

[dependencies]
serde_json = "=1.0.151"
md5 = "=0.8.1"
url = "=2.5.8"
serde = { version = "1", features = ["derive"] }
glob = "*"
tokio = { version = "1", features = ["rt-multi-thread", "macros", "sync"] }
reqwest = { version = "*", default-features = false, features = ["stream"] }
futures-util = "*"
oxc = { version = "=0.139.0", features = ["semantic"] }
browserslist-rs = "*"
