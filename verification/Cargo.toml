[package]
name = "shader_graph"
version = "0.1.0"
edition = "2021"
publish = false

[dependencies]
isf = "0.1"
anyhow = "1"
egui = "0.23"
glam = "0.21"
glium = "0.32"
native-dialog = "0.6"
serde = { version = "1", features = ["derive"] }
strum = { version = "0.24", features = ["derive"] }
