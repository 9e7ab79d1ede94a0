[package]
name = "event_counter"
version = "0.1.0"
edition = "2021"
publish = false

[dependencies]
dashmap = "*"
serde = { version = "*", features = ["derive"] }
tokio = { version = "*", features = ["full"] }
warp = { version = "*", default-features = false, features = ["server"] }
reqwest = { version = "*", default-features = false, features = ["json"] }
fastrand = "*"
