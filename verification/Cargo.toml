[package]
name = "cenote"
version = "0.1.0"
edition = "2021"
publish = false

[dependencies]
ash = { version = "=0.38.0", default-features = false }
bytemuck = { version = "=1.25.2", features = ["derive"] }
glam = { version = "=0.34.2", features = ["bytemuck"] }
image = { version = "=0.25.10", default-features = false, features = ["png", "jpeg", "tga", "tiff", "bmp", "exr", "hdr"] }
intel_tex_2 = "=0.5.0"
link-cplusplus = "1"
log = "=0.4.35"
notify = "=8.2.1"
ron = "=0.12.3"
serde = { version = "=1.0.229", features = ["derive"] }
