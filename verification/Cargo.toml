[package]
name = "saar"
version = "0.1.0"
edition = "2021"
publish = false

[dependencies]
wasm-bindgen = "*"
web-sys = { version = "*", features = ["Window", "Document", "HtmlElement", "Element", "console"] }
