[package]
name = "emu"
version = "0.2.0"
edition = "2021"
publish = false

[dependencies]
anyhow = "1"
clap = { version = "4", features = ["derive"] }
console = "0.15"
ctrlc = "3"
dialoguer = "0.11"
dirs = "5"
indicatif = "0.17"
libc = "0.2"

[dev-dependencies]
tempfile = "3"
