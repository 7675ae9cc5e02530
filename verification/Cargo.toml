[package]
name = "tile_dungeon"
version = "0.1.0"
edition = "2021"
publish = false

[dependencies]
bracket-random = "0.8"
macroquad = "0.4"
shipyard = "0.4"
