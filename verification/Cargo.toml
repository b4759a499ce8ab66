[package]
name = "tictactoe"
version = "0.1.0"
edition = "2021"
publish = false

[dependencies]
axum = "*"
tokio = { version = "*", features = ["rt-multi-thread", "macros", "net"] }
tower-http = { version = "*", features = ["fs"] }
wasm-bindgen = "*"
web-sys = { version = "*", features = ["Window", "Document", "Element", "HtmlElement", "DomTokenList"] }
