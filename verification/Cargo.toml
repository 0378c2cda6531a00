[package]
name = "sakamoto"
version = "0.1.0"
edition = "2021"
publish = false

[dependencies]
minijinja = "*"
reqwest = { version = "*", default-features = false, features = ["json"] }
serde_json = "*"
sled = "*"
tokio = { version = "*", features = ["macros", "rt-multi-thread", "time"] }
twilight-cache-inmemory = "*"
twilight-gateway = "*"
twilight-http = "*"
twilight-model = "*"
twilight-standby = "*"
