[package]
name = "combat_core"
version = "0.1.0"
edition = "2021"
publish = false

[dependencies]
bevy = { version = "=0.9.1", default-features = false, features = ["bevy_asset", "bevy_core_pipeline", "bevy_render", "bevy_sprite", "bevy_winit", "x11", "png"] }
bevy_ecs_ldtk = "=0.5.0"
bevy_rapier2d = "=0.20.0"
