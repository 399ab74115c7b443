[package]
name = "signer"
version = "0.1.0"
edition = "2021"
publish = false

[dependencies]
jiff = "=0.2.39"
anyhow = "=1.0.104"
clap = { version = "=4.6.7", features = ["derive"] }
directories = "=6.0.0"
image = { version = "=0.25.10", default-features = false, features = ["png", "jpeg", "tiff"] }
pdf_oxide = { version = "=0.3.78", features = ["rendering"] }
ocrs = "=0.13.1"
rten = "=0.26.0"
serde = { version = "=1.0.229", features = ["derive"] }
toml = "=1.1.8"
ureq = "=3.5.1"
