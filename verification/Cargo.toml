[package]
name = "zero2prod"
version = "0.1.0"
edition = "2021"
publish = false

[dependencies]
actix-web = { version = "4", default-features = false, features = ["macros"] }
config = { version = "0.13", default-features = false, features = ["yaml"] }
rand = "0.8"
reqwest = { version = "0.11", default-features = false, features = ["json", "rustls-tls"] }
serde = { version = "1", features = ["derive"] }
sqlx = { version = "0.7", default-features = false, features = ["postgres", "runtime-tokio", "uuid", "time"] }
thiserror = "1"
time = "0.3"
tracing = "0.1"
tracing-actix-web = "0.7"
unicode-segmentation = "1"
uuid = { version = "1", features = ["v4"] }
validator = "0.16"

[dev-dependencies]
fake = "2"
linkify = "0.9"
