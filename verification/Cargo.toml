[package]
name = "nanogpt_120a"
version = "0.1.0"
edition = "2021"
publish = false

[dependencies]
time = "0.3"
clap = { version = "4", features = ["derive"] }
plotters = "0.3"
