[package]
name = "mf"
version = "1.0.0"
edition = "2021"
publish = false

[dependencies]
arboard = "3"
chardetng = "0.1"
clap = { version = "4", features = ["derive"] }
colored = "2"
crossterm = "0.28"
ctrlc = "3"
encoding_rs = "0.8"
file-identify = "*"
image = { version = "0.25", default-features = false, features = ["png", "jpeg", "bmp", "gif", "ico", "webp"] }
open = "5"
quick-xml = "*"
serde = { version = "1", features = ["derive"] }
serde_json = "1"
serde_yaml = "0.9"
thiserror = "1"
toml = "0.8"
