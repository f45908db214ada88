[package]
name = "clip_upload"
version = "0.1.0"
edition = "2021"
publish = false

[dependencies]
futures-util = "=0.3.34"
js-sys = "0.3"
leptos = { version = "0.5", features = ["csr"] }
read-progress-stream = "=1.0.0"
reqwest = { version = "=0.11.27", features = ["stream"] }
serde = { version = "=1.0.229", features = ["derive"] }
serde-wasm-bindgen = "0.6"
serde_json = "=1.0.154"
stylers = "*"
tokio-util = "=0.7.20"
wasm-bindgen = "0.2"
web-sys = { version = "0.3", features = ["Document", "Event", "EventTarget", "HtmlInputElement", "Storage", "Window"] }
