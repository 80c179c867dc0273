[package]
name = "demand_curve_ui"
version = "0.1.0"
edition = "2021"
publish = false

[dependencies]
chrono = "0.4"
url = "2"
plotters = { version = "0.3", default-features = false, features = ["chrono", "line_series"] }
plotters-canvas = "0.3"
wasm-bindgen = "0.2"
web-sys = { version = "0.3", features = ["Window", "Document", "Element", "console"] }
reqwest = { version = "0.11", default-features = false, features = ["json"] }
serde_json = "1"
sycamore = { version = "0.8", features = ["suspense"] }
