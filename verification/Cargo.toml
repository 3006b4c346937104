[package]
name = "osc_blaster"
version = "0.1.0"
edition = "2021"
publish = false

[dependencies]
anyhow = "=1.0.104"
clap = { version = "=3.2.25", features = ["derive"] }
ctrlc = "=3.5.2"
log = "=0.4.34"
rosc = "=0.5.2"
simplelog = "=0.12.2"
yaml-rust = "=0.4.5"
