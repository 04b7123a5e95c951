[package]
name = "ecosim"
version = "0.1.0"
edition = "2021"
publish = false

[dependencies]
wasm-bindgen = "=0.2.92"
web-sys = { version = "=0.3.69", features = ["CanvasRenderingContext2d"] }
console_error_panic_hook = "=0.1.7"
