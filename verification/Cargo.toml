[package]
name = "focus_client_rust"
version = "0.1.0"
edition = "2021"
publish = false

[dependencies]
reqwest = { version = "0.12", default-features = false }
tokio = { version = "1", features = ["macros", "rt-multi-thread", "sync", "time", "signal"] }
mdns-sd = "0.15"
wallpaper = "3.2"
serde = { version = "1", features = ["derive"] }
serde_json = "1"
toml = "0.8"
chrono = { version = "0.4", features = ["serde"] }
dirs = "5"
linfa = "0.7"
linfa-linear = "0.7"
linfa-trees = "0.7"
ndarray = "0.15"
