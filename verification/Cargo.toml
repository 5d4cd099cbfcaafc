[package]
name = "sycamore_toasts"
version = "0.1.0"
edition = "2021"
publish = false

[dependencies]
gloo-timers = { version = "=0.3.0", features = ["futures"] }
serde = { version = "=1.0.229", features = ["derive"] }
serde_json = "=1.0.154"
sycamore = { version = "=0.9.0-beta.2", features = ["suspense"] }
sycamore-core = "=0.9.0-beta.2"
sycamore-futures = "=0.9.0-beta.2"
sycamore-macro = "=0.9.0-beta.2"
sycamore-reactive = "=0.9.0-beta.2"
sycamore-web = "=0.9.0-beta.2"
uuid = { version = "=1.29.0", features = ["v4", "serde"] }
wasm-bindgen = "0.2"
wasm-cookies = "=0.2.1"
web-sys = { version = "0.3", features = ["Window", "Document", "HtmlDocument"] }
