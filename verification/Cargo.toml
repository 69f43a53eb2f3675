[package]
name = "client_assets"
version = "0.1.0"
edition = "2021"
publish = false

[dependencies]
anyhow = "1"
byteorder = "1"
image = { version = "0.25", default-features = false, features = ["bmp", "png"] }
log = "0.4"
prost = "0.13"
rayon = "1"
regex = "1"
serde = { version = "1", features = ["derive"] }
serde_json = "1"
