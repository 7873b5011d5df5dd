[package]
name = "matrix_editor"
version = "0.1.0"
edition = "2021"
publish = false

[dependencies]
gloo = "*"
math_library = "*"
wasm-bindgen = "*"
web-sys = { version = "*", features = ["HtmlInputElement"] }
yew = { version = "*", features = ["csr"] }
