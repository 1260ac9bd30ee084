[package]
name = "colorview"
version = "0.1.0"
edition = "2021"
publish = false

[dependencies]
cgmath = "0.18"
console_error_panic_hook = "0.1"
derive_more = "0.99"
js-sys = "0.3"
palette = "0.7"
three-d = "0.16"
wasm-bindgen = "0.2"
web-sys = { version = "0.3", features = ["HtmlCanvasElement"] }
winit = "0.28"
