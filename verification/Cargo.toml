[package]
name = "bevy_bezier_splines"
version = "0.1.0"
edition = "2021"
publish = false

[dependencies]
bevy = { version = "=0.17.3", default-features = false, features = ["std", "async_executor", "bevy_color", "bevy_gizmos", "bevy_window"] }
