[package]
name = "conway_life"
version = "0.1.0"
edition = "2021"
publish = false

[dependencies]
rand = "=0.8.8"
getrandom = { version = "=0.2.17", features = ["js"] }
dioxus = { version = "=0.4.3", default-features = false, features = ["macro", "html", "hooks"] }
dioxus-web = { version = "=0.4.3", default-features = false, features = ["panic_hook", "mounted", "file_engine", "eval"] }
wasm-bindgen = "=0.2.129"
web-sys = { version = "=0.3.106", features = ["Window", "Performance", "Document", "HtmlElement"] }
