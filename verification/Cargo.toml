[package]
name = "aseprite_reader"
version = "0.1.0"
edition = "2021"
publish = false

[dependencies]
flate2 = "=1.1.10"
image = { version = "=0.24.9", default-features = false }
nom = "=7.1.3"
thiserror = "=1.0.69"
anyhow = "=1.0.104"
tracing = "=0.1.44"
heck = "0.4"
quote = "1"
syn = { version = "2", features = ["full"] }
proc-macro2 = "1"
