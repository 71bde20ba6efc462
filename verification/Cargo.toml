[package]
name = "spectra"
version = "0.1.0"
edition = "2021"
publish = false

[dependencies]
rand = "*"
chrono = "*"
realfft = "*"
rustfft = "*"
apodize = "*"
triple_buffer = "*"
anyhow = "*"
tokio = { version = "*", features = ["rt-multi-thread", "macros", "time"] }
