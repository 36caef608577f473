[package]
name = "pdf-viewer"
version = "0.1.0"
edition = "2021"
publish = false

[dependencies]
uuid = { version = "1", features = ["v4", "js"] }
leptos = { version = "0.7", features = ["csr"] }
wasm-bindgen = "0.2"
wasm-bindgen-futures = "0.4"
js-sys = "0.3"
web-sys = { version = "0.3", features = ["Window", "Document", "Element", "HtmlElement", "HtmlCanvasElement", "HtmlInputElement", "HtmlSelectElement", "Event", "EventTarget", "MouseEvent", "SubmitEvent", "FocusEvent", "ProgressEvent", "FileReader", "File", "FileList", "Blob", "DomRect", "console"] }
serde = { version = "1", features = ["derive"] }
serde-wasm-bindgen = "0.6"
gloo-net = { version = "0.6", features = ["http"] }
gloo-storage = "0.3"
console_error_panic_hook = "0.1"
