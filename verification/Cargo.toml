[package]
name = "canvas_filters"
version = "0.1.0"
edition = "2021"
publish = false

[dependencies]
photon-rs = "*"
wasm-bindgen = "*"
web-sys = { version = "*", features = ["HtmlCanvasElement", "CanvasRenderingContext2d"] }
wasm-logger = "*"
