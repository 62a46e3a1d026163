[package]
name = "photovault"
version = "0.1.0"
edition = "2021"
publish = false

[dependencies]
sha2 = "*"
hex = "*"
chrono = "*"
serde = { version = "*", features = ["derive"] }
serde_json = "*"
anyhow = "*"
walkdir = "*"
thiserror = "*"
dirs = "*"
home = "*"
uuid = { version = "*", features = ["v4"] }
image = { version = "*", default-features = false, features = ["jpeg", "png"] }
tokio = { version = "*", features = ["rt", "macros", "fs"] }
sqlx = { version = "*", default-features = false, features = ["runtime-tokio", "sqlite"] }
