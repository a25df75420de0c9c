[package]
name = "mcping"
version = "0.1.0"
edition = "2021"
publish = false

[dependencies]
base64 = "*"
clap = { version = "*", features = ["derive"] }
color-eyre = "*"
crossterm = "*"
image = "*"
serde = { version = "*", features = ["derive"] }
serde_json = "*"
tokio = { version = "*", features = ["rt-multi-thread", "macros", "net", "io-util"] }
viuer = "*"
