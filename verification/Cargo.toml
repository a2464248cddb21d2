[package]
name = "galton"
version = "0.1.0"
edition = "2021"
publish = false

[dependencies]
rand = "*"
log = "*"
console_log = "*"
wasm-bindgen = "*"
web-sys = { version = "*", features = [
    "CanvasRenderingContext2d",
    "Document",
    "Element",
    "Event",
    "EventTarget",
    "HtmlCanvasElement",
    "HtmlInputElement",
    "InputEvent",
    "KeyboardEvent",
    "Performance",
    "Window",
] }
