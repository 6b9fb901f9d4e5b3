[package]
name = "ned"
version = "0.1.0"
edition = "2021"
publish = false

[dependencies]
anyhow = "1"
lazy_static = "1"
nvim-oxi = { version = "0.5", features = ["neovim-0-10"] }
serde = { version = "1", features = ["derive"] }
