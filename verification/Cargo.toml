[package]
name = "treewalk"
version = "0.1.0"
edition = "2021"
publish = false

[dependencies]
clap = { version = "4", features = ["derive"] }
crossterm = "0.27"
thiserror = "1"
wasm-bindgen = "0.2"
js-sys = "0.3"
