[package]
name = "bevy_svg"
version = "0.1.0"
edition = "2021"
publish = false

[dependencies]
bevy = { version = "=0.13.2", default-features = false }
lyon_tessellation = "=1.0.22"
bytemuck = "=1.25.2"
serde = { version = "=1.0.229", features = ["derive"] }
thiserror = "=1.0.69"
usvg = "=0.40.0"
