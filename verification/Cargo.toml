[package]
name = "crynn"
version = "0.1.0"
edition = "2021"
publish = false

[dependencies]
url = "2"
md5 = "0.7"
chrono = "0.4"
anyhow = "1"
serde = { version = "1", features = ["derive"] }
serde_json = "1"
tokio = { version = "1", features = ["fs", "rt", "rt-multi-thread", "macros", "sync", "time", "net"] }
sqlx = { version = "0.7", default-features = false, features = ["runtime-tokio", "sqlite"] }
dirs = "5"
uuid = { version = "1", features = ["v4"] }
sysinfo = "0.30"
reqwest = { version = "0.11", default-features = false, features = ["json"] }
async-trait = "0.1"
