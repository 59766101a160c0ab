[package]
name = "battlegroup_data"
version = "0.1.0"
edition = "2021"
publish = false

[dependencies]
indexmap = "=2.14.2"
egui = "=0.33.3"
egui_glium = "=0.33.2"
glium = "=0.36.0"
serde = { version = "=1.0.229", features = ["derive"] }
serde_json = { version = "=1.0.154", features = ["preserve_order"] }
strum_macros = "=0.20.1"
