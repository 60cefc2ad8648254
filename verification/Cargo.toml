[package]
name = "images_to_pdf"
version = "0.1.0"
edition = "2021"
publish = false

[dependencies]
image = "*"
genpdf = { version = "*", features = ["images"] }
zip = "*"
clap = { version = "*", features = ["derive"] }
thiserror = "*"
