[package]
name = "file_reader"
version = "0.1.0"
edition = "2021"
publish = false

[dependencies]
leptos = { version = "0.6", features = ["csr"] }
wasm-bindgen = "0.2"
js-sys = "0.3"
web-sys = { version = "0.3", features = ["Window", "Document", "Element", "Node", "EventTarget", "HtmlElement", "HtmlInputElement", "File", "FileList", "FileReader", "Blob", "Event", "ProgressEvent", "console"] }
console_error_panic_hook = "0.1"
