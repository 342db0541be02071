[package]
name = "lorri"
version = "0.1.0"
edition = "2021"
publish = false

[dependencies]
md5 = "=0.7.0"
urlencoding = "=2.1.3"
clap = { version = "=4.6.7", features = ["derive"] }
serde = { version = "=1.0.229", features = ["derive"] }
serde_json = "=1.0.154"
slog = "=2.8.2"
slog-term = "=2.9.2"
tokio = { version = "=1.54.1", features = ["full"] }
nix = { version = "=0.29.0", features = ["fs", "signal"] }
os_info = "=3.15.0"
backtrace = "=0.3.77"
