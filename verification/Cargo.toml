[package]
name = "resy"
version = "0.1.0"
edition = "2021"
publish = false

[dependencies]
aws-config = "1"
aws-credential-types = "1"
aws-sdk-s3 = "1"
chrono = "0.4"
rusqlite = { version = "0.32", features = ["bundled"] }
secrecy = "0.10"
serde = { version = "1", features = ["derive"] }
zeroize = { version = "1", features = ["derive"] }
