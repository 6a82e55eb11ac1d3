[package]
name = "hecs_game"
version = "0.1.0"
edition = "2021"
publish = false

[dependencies]
env_logger = "0.11"
glam = "*"
hecs = { version = "0.10", features = ["macros"] }
log = "0.4"
