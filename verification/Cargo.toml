[package]
name = "r2_mount"
version = "0.1.0"
edition = "2021"
publish = false

[dependencies]
async-trait = "0.1"
aws-sdk-s3 = { version = "1", default-features = false, features = ["rt-tokio"] }
chrono = { version = "0.4", default-features = false, features = ["clock"] }
futures-util = "0.3"
libc = "0.2"
log = "0.4"
nfsserve = "*"
serde = { version = "1", features = ["derive"] }
serde_json = "1"
tokio = { version = "1", features = ["fs", "io-util", "macros", "rt-multi-thread", "sync", "time"] }
urlencoding = "2"
