[package]
name = "pdf2epub"
version = "0.1.0"
edition = "2021"
publish = false

[dependencies]
anyhow = "=1.0.104"
clap = { version = "=4.6.7", features = ["derive"] }
epub-builder = "=0.8.3"
html-escape = "=0.2.15"
image = { version = "=0.25.10", default-features = false, features = ["png"] }
indicatif = "=0.18.6"
leptess = "=0.14.0"
pdfium-render = "=0.9.4"
thiserror = "=2.0.21"
