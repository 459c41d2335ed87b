[package]
name = "polymesh_explorer"
version = "0.1.0"
edition = "2021"
publish = false

[dependencies]
anyhow = "1"
eframe = { version = "0.18", features = ["persistence"] }
egui = "0.18"
egui_extras = "0.18"
hex = "0.4"
log = "0.4"
serde = { version = "1", features = ["derive"] }
serde_json = "1"
tokio = { version = "1", features = ["rt", "sync"] }
wasm-bindgen-futures = "0.4"
