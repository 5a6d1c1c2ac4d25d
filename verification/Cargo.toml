[package]
name = "jamjar"
version = "0.1.0"
edition = "2021"
publish = false

[dependencies]
rodio = "0.17"
image = "*"
texture_packer = "*"
rusttype = { version = "*", features = ["gpu_cache"] }
handlebars = "*"
toml = "*"
serde = { version = "*", features = ["derive"] }
serde_yaml = "*"
zip = "*"
tempfile = "*"
thiserror = "*"
dirty_static = "*"
lazy_static = "*"
