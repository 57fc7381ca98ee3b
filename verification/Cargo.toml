[package]
name = "snek"
version = "0.1.0"
edition = "2021"
publish = false

[dependencies]
console_error_panic_hook = "0.1"
rand = "0.8"
wasm-bindgen = "0.2"
web-sys = { version = "0.3", features = ["CanvasRenderingContext2d", "CssStyleDeclaration", "Document", "Element", "Event", "EventTarget", "FocusEvent", "HtmlCanvasElement", "HtmlCollection", "HtmlElement", "ImageBitmap", "KeyboardEvent", "Node", "OffscreenCanvas", "Performance", "Window"] }
