[package]
name = "mangameeya"
version = "0.1.0"
edition = "2021"
publish = false

[dependencies]
zip = { version = "*", default-features = false, features = ["deflate"] }
tar = { version = "*", default-features = false }
flate2 = "*"
image = { version = "*", default-features = false, features = ["jpeg", "png", "gif", "bmp", "tiff", "webp"] }
serde = { version = "*", features = ["derive"] }
serde_json = "*"
toml = "*"
thiserror = "*"
sevenz-rust = "*"
