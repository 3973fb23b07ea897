[package]
name = "chess_board"
version = "0.1.0"
edition = "2021"
publish = false

[dependencies]
bevy = { version = "=0.5.0", default-features = false, features = ["bevy_gltf", "bevy_wgpu", "bevy_winit", "png", "render", "x11"] }
bevy_mod_picking = "=0.4.0"
# Not called by this crate. bevy's derive crates use syn's "full" feature
# without asking for it; pin-project's macro crate asks for it.
pin-project = "=1.0.12"
