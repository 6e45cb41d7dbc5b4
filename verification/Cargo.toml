[package]
name = "chip8_core"
version = "0.1.0"
edition = "2021"
publish = false

[dependencies]
rand = "=0.8.8"
egui = "=0.32.3"
egui-sfml = "=0.10.0"
sfml = "=0.25.1"
rodio = "=0.23.0"
rfd = "=0.17.2"
