[package]
name = "hotkeyd"
version = "0.1.0"
edition = "2021"
publish = false

[dependencies]
toml = "*"
clap = { version = "*", features = ["derive"] }
serde = { version = "*", features = ["derive"] }
rdev = "*"
notify = "*"
notify-debouncer-mini = "*"
tokio = { version = "*", features = ["macros", "rt-multi-thread"] }
