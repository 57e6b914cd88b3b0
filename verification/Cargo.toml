[package]
name = "resource_id"
version = "0.1.0"
edition = "2021"
publish = false

[dependencies]
ulid = "*"
serde = "1"
schemars = "0.8"
sqlx = { version = "*", default-features = false, features = ["postgres"] }
thiserror = "*"
