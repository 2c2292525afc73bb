[package]
name = "tabletop"
version = "0.1.0"
edition = "2021"
publish = false

[dependencies]
bevy = { version = "0.16", default-features = false, features = ["std", "bevy_asset", "bevy_color", "bevy_core_pipeline", "bevy_gizmos", "bevy_log", "bevy_mesh_picking_backend", "bevy_pbr", "bevy_picking", "bevy_render", "bevy_window", "bevy_winit", "tonemapping_luts", "x11"] }
bevy_mod_outline = "0.10"
bevy_panorbit_camera = "0.26"
