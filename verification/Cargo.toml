[package]
name = "screenrec"
version = "0.1.0"
edition = "2021"
publish = false

[dependencies]
anyhow = "1"
bytemuck = "1"
chrono = "0.4"
clap = { version = "4", default-features = false, features = ["derive", "std", "help", "usage", "error-context"] }
crossbeam-channel = "0.5"
ctrlc = "3"
dirs = "5"
env_logger = { version = "0.11", default-features = false }
ffmpeg-next = "7"
hostname = "0.4"
image = { version = "0.24", default-features = false, features = ["png", "jpeg"] }
log = "0.4"
scrap = "0.5"
serde = { version = "1", features = ["derive"] }
serde_json = "1"
sqlx = { version = "0.7", default-features = false, features = ["sqlite", "runtime-tokio", "chrono"] }
thiserror = "1"
tokio = { version = "1", features = ["rt-multi-thread", "macros", "sync", "time", "signal"] }
toml = "0.8"
