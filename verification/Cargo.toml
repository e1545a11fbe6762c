[package]
name = "syn_debugger"
version = "0.1.0"
edition = "2021"
publish = false

[dependencies]
syn = { version = "=2.0.119", features = ["full", "extra-traits"] }
proc-macro2 = { version = "=1.0.107", features = ["span-locations"] }
yew = { version = "=0.20.0", features = ["csr"] }
gloo-timers = "=0.2.6"
wasm-bindgen = "=0.2.129"
web-sys = { version = "=0.3.106", features = ["HtmlSelectElement", "HtmlTextAreaElement"] }
