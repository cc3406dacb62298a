[package]
name = "ws_client"
version = "0.1.0"
edition = "2021"
publish = false

[dependencies]
wasm-bindgen = "0.2"
web-sys = { version = "0.3", features = ["console", "Document", "Element", "ErrorEvent", "Event", "EventTarget", "HtmlElement", "HtmlInputElement", "KeyboardEvent", "MessageEvent", "Node", "UiEvent", "WebSocket", "Window"] }
