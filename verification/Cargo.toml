[package]
name = "env_logger"
version = "0.1.0"
edition = "2021"
publish = false

[dependencies]
log = "0.4"
chrono = "0.4"
termcolor = "1"
regex = "1"
wasm-bindgen = "0.2"
