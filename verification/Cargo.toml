[package]
name = "broadcaster"
version = "0.1.0"
edition = "2021"
publish = false

[dependencies]
uuid = { version = "*", features = ["v4"] }
actix-web = { version = "*", default-features = false, features = ["macros"] }
actix-web-lab = "*"
tokio = { version = "*", features = ["sync", "time", "rt-multi-thread", "macros"] }
futures-util = "*"
serde = { version = "*", features = ["derive"] }
serde_json = "*"
dotenvy = "*"
