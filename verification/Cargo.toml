[package]
name = "dekit"
version = "0.1.0"
edition = "2021"
publish = false

[dependencies]
anyhow = "1"
futures = "0.3"
indexmap = "2"
libc = "0.2"
log = "0.4"
rustix = { version = "1", features = ["process", "termios", "stdio"] }
serde = { version = "1", features = ["derive"] }
serde_json = "1"
serde_yaml = "0.9"
tokio = { version = "1", features = ["full"] }
tui-input = { version = "*", default-features = false }
unicode-segmentation = "1"
