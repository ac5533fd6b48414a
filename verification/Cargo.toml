[package]
name = "s3_algo"
version = "0.1.0"
edition = "2021"
publish = false

[dependencies]
futures = "0.3"
rusoto_core = { version = "*", default-features = false, features = ["rustls"] }
rusoto_s3 = { version = "*", default-features = false, features = ["rustls"] }
serde = { version = "1", features = ["derive"] }
snafu = { version = "*", features = ["futures"] }
tokio = { version = "1", features = ["time", "sync"] }
