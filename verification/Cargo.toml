[package]
name = "splat_viewer"
version = "0.1.0"
edition = "2021"
publish = false

[dependencies]
anyhow = "=1.0.104"
bytemuck = { version = "=1.25.2", features = ["min_const_generics"] }
byteorder = "=1.5.0"
cgmath = "=0.18.0"
console_error_panic_hook = "=0.1.7"
console_log = "=1.1.0"
egui = { version = "=0.33.3", default-features = false }
env_logger = "=0.11.11"
half = { version = "=2.7.1", features = ["bytemuck", "num-traits"] }
js-sys = "=0.3.107"
log = "=0.4.35"
num-traits = "=0.2.19"
once_cell = "=1.21.4"
ply-rs = "=0.1.3"
rand = "=0.8.8"
splines = { version = "=4.4.2", features = ["cgmath"] }
wasm-bindgen = "=0.2.130"
wasm-bindgen-futures = "=0.4.80"
web-sys = { version = "=0.3.107", features = ["Document", "Element", "HtmlCanvasElement", "HtmlElement", "Navigator", "Node", "Window"] }
web-time = "=1.1.0"
wgpu = "=27.0.1"
winit = "=0.30.13"
