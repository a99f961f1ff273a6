[package]
name = "mushy"
version = "0.1.0"
edition = "2021"
publish = false

[dependencies]
base64 = "0.21"
clap = { version = "4", features = ["derive"] }
crossterm = "0.27"
directories = "5"
gif = "0.13"
image = { version = "0.24", default-features = false, features = ["png"] }
libc = "0.2"
serde = { version = "1", features = ["derive"] }
toml = "0.8"
