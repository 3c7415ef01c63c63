[package]
name = "logicx"
version = "0.1.0"
edition = "2021"
publish = false

[dependencies]
regex = "1"
serde = { version = "1", features = ["derive"] }
serde_json = "1"
leptos = { version = "0.7", features = ["csr"] }
web-sys = { version = "0.3", features = ["MouseEvent", "WheelEvent", "HtmlDivElement", "SvgElement", "DomRect", "Element"] }
js-sys = "0.3"
wasm-bindgen = "0.2"
console_error_panic_hook = "0.1"
