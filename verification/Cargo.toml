[package]
name = "wascan"
version = "0.1.0"
edition = "2021"
publish = false

[dependencies]
image = { version = "=0.25.10", default-features = false, features = ["png", "jpeg", "gif", "bmp", "webp"] }
rxing = { version = "=0.9.3", default-features = false, features = ["decoders", "encoders", "oned", "qrcode", "encoding_rs", "wasm_support"] }
thiserror = "=2.0.21"
console_error_panic_hook = "=0.1.7"
js-sys = "=0.3.106"
wasm-bindgen = "=0.2.129"
wasm-bindgen-futures = "=0.4.79"
web-sys = { version = "=0.3.106", features = ["Blob", "CanvasRenderingContext2d", "Document", "Element", "Event", "EventTarget", "File", "FileList", "FileReader", "HtmlCanvasElement", "HtmlElement", "HtmlInputElement", "HtmlVideoElement", "ImageData", "MediaDevices", "MediaStream", "MediaStreamConstraints", "MediaStreamTrack", "Navigator", "Node", "Window", "console"] }
