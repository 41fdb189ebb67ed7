[package]
name = "whack_a_mole"
version = "0.1.0"
edition = "2021"
publish = false

[dependencies]
bevy = { version = "=0.15.3", default-features = false, features = ["bevy_state", "bevy_window", "bevy_ui", "bevy_sprite", "bevy_text", "default_font"] }
rand = "=0.8.8"
