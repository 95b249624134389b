[package]
name = "conway_gol"
version = "0.1.0"
edition = "2021"
publish = false

[dependencies]
fastrand = "2"
bevy_pancam = "0.16"
bevy = { version = "0.15", default-features = false, features = ["bevy_asset", "bevy_color", "bevy_core_pipeline", "bevy_render", "bevy_sprite", "bevy_state", "bevy_window", "bevy_winit", "bevy_picking", "bevy_mesh_picking_backend", "x11"] }
