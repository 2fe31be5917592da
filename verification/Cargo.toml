[package]
name = "node_graph"
version = "0.1.0"
edition = "2021"
publish = false

[dependencies]
anyhow = "1"
eframe = { version = "0.27", default-features = false, features = ["glow", "default_fonts"] }
egui = "0.27"
serde = { version = "1", features = ["derive"] }
serde_json = "1"
thiserror = "1"
