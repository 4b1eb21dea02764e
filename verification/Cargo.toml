[package]
name = "tetris"
version = "0.1.0"
edition = "2021"
publish = false

[dependencies]
js-sys = "*"
wasm-bindgen = "*"
wasm-react = "*"
web-sys = { version = "*", features = ["Window", "Element", "HtmlElement", "KeyboardEvent"] }
