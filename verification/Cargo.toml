[package]
name = "spryst"
version = "0.1.0"
edition = "2021"
publish = false

[dependencies]
ciborium = "0.2"
image = { version = "0.25", default-features = false, features = ["rayon", "bmp", "dds", "exr", "ff", "gif", "hdr", "ico", "jpeg", "png", "pnm", "qoi", "tga", "tiff", "webp"] }
serde = { version = "1", features = ["derive"] }
serde_bytes = "0.11"
thiserror = "2"
wasm-minimal-protocol = "*"
