[package]
name = "hraw"
version = "0.1.0"
edition = "2021"
publish = false

[dependencies]
anyhow = "1"
thiserror = "1"
serde = { version = "1", features = ["derive"] }
serde_json = "1"
serde_yaml = "0.9"
strum = { version = "0.26", features = ["derive"] }
zip = { version = "0.6", default-features = false, features = ["deflate"] }
walkdir = "2"
image = { version = "0.24", default-features = false, features = ["png"] }
nalgebra = "0.32"
simba = "0.8"
num = "0.4"
rayon = "1"
byteorder = "1"
clap = { version = "4", features = ["derive"] }
colored = "2"
indoc = "2"
paste = "1"
mlua = { version = "0.9", features = ["luau", "serialize"] }
pyo3 = "0.21"
numpy = "0.21"

[dev-dependencies]
fake = "2"
tempfile = "3"
