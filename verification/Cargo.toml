[package]
name = "dungeon_oxide"
version = "0.1.0"
edition = "2021"
publish = false

[dependencies]
macroquad = "*"
serde_json = "*"
