[package]
name = "fbx2u3d"
version = "0.1.0"
edition = "2021"
publish = false

[dependencies]
clap = { version = "4", features = ["derive"] }
fbx = "*"
tempfile = "3"
thiserror = "*"
