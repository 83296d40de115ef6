[package]
name = "abi"
version = "0.1.0"
edition = "2021"
publish = false

[dependencies]
chrono = "0.4"
thiserror = "1"
sqlx = { version = "0.6", default-features = false, features = ["postgres", "runtime-tokio-rustls", "chrono", "uuid"] }

[dev-dependencies]
regex = "1"
