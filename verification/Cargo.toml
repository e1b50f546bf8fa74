[package]
name = "honeyos"
version = "0.1.0"
edition = "2021"
publish = false

[dependencies]
anyhow = "1"
console_log = "1"
hashbrown = "0.14"
js-sys = "0.3"
log = "0.4"
rhai = "1"
serde = { version = "1", features = ["derive"] }
uuid = { version = "1", features = ["v4", "serde"] }
wasm-bindgen = "0.2"
wasm-bindgen-futures = "0.4"
web-sys = { version = "0.3", features = ["Blob", "Document", "Element", "Event", "EventTarget", "HtmlElement", "KeyboardEvent", "Node", "Url", "Window", "Worker", "WorkerOptions", "WorkerType"] }
