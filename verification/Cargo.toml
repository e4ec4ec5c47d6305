[package]
name = "ceremony_coordinator"
version = "0.1.0"
edition = "2021"
publish = false

[dependencies]
sha2 = "=0.10.9"
base64 = "=0.13.1"
zip = { version = "=0.6.6", default-features = false, features = ["deflate"] }
serde_json = "=1.0.151"
rocket = { version = "=0.5.1", features = ["json"] }
tokio = { version = "=1.53.2", features = ["rt-multi-thread", "macros", "sync", "time"] }
rusoto_core = { version = "=0.48.0", default-features = false, features = ["rustls"] }
rusoto_credential = "=0.48.0"
rusoto_s3 = { version = "=0.48.0", default-features = false, features = ["rustls"] }
