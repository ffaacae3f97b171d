[package]
name = "offload_core"
version = "0.1.0"
edition = "2021"
publish = false

[dependencies]
aes = "=0.9.3"
base64 = "=0.23.1"
ghash = "=0.6.0"
sha2 = "=0.11.0"
serde = { version = "=1.0.229", features = ["derive"] }
serde_json = "=1.0.151"
reqwest = { version = "=0.13.5", default-features = false, features = ["json", "stream", "cookies"] }
tokio = { version = "=1.53.2", features = ["rt-multi-thread", "macros", "fs"] }
futures-util = "=0.3.34"
uuid = { version = "=1.27.0", features = ["v4"] }
zip = { version = "=8.6.0", default-features = false, features = ["deflate"] }

[dev-dependencies]
aes-gcm = "=0.11.1"
