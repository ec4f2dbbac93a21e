[package]
name = "hyprnav"
version = "0.1.0"
edition = "2021"
publish = false

[dependencies]
anyhow = "1"
argh = "0.1"
hyprland = "0.4.0-beta.2"
