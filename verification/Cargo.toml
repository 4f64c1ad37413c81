[package]
name = "polyscope_render"
version = "0.1.0"
edition = "2021"
publish = false

[dependencies]
glam = "*"
serde = { version = "1", features = ["derive"] }
image = { version = "*", default-features = false, features = ["png", "jpeg"] }
wgpu = "*"
thiserror = "*"
bytemuck = { version = "1", features = ["derive"] }
half = "*"
rand = "*"
log = "*"

[dev-dependencies]
serde_json = "1"
