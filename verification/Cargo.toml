[package]
name = "static_zip"
version = "0.1.0"
edition = "2021"
publish = false

[dependencies]
zip = { version = "*", default-features = false, features = ["deflate"] }
http = "0.2"
serde = { version = "*", features = ["derive"] }
serde_json = "*"
tokio = { version = "1", features = ["full"] }
warp = "0.3"
sqlx = { version = "*", features = ["runtime-tokio", "sqlite"] }
