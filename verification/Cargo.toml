[package]
name = "actix_cloud"
version = "0.1.0"
edition = "2021"
publish = false

[dependencies]
actix-utils = "*"
actix-web = "*"
chrono = "*"
colored = "*"
cookie = { version = "*", features = ["signed", "private"] }
futures = "*"
hex = "*"
parking_lot = "*"
priority-queue = "*"
qstring = "*"
rand = "*"
redis = "*"
serde = { version = "*", features = ["derive"] }
serde_json = "*"
tracing = "*"
tracing-subscriber = { version = "*", features = ["json"] }

[dev-dependencies]
glob = "*"
