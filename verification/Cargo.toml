[package]
name = "hdpictureconverter"
version = "0.1.0"
edition = "2021"
publish = false

[dependencies]
clap = "=4.6.7"
image = { version = "=0.25.10", default-features = false, features = ["png", "jpeg", "gif", "bmp", "tiff", "webp"] }
imagequant = "=4.4.1"
rgb = "=0.8.53"
tifiles = "=0.2.0"
zx0 = "=1.0.0"
