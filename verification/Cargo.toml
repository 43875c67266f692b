[package]
name = "pastebin"
version = "0.1.0"
edition = "2021"
publish = false

[dependencies]
rand = "0.8"
brotli = "*"
tokio = { version = "1", features = ["rt-multi-thread", "macros"] }
sqlx = { version = "0.8", default-features = false, features = ["runtime-tokio", "tls-rustls", "postgres", "chrono", "bigdecimal", "macros"] }
aws-config = "1"
aws-credential-types = "1"
aws-sdk-s3 = "1"
reqwest = { version = "0.12", default-features = false, features = ["rustls-tls", "json"] }
serde_json = "1"
chrono = "0.4"
bigdecimal = "0.4"
