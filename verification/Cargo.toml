[package]
name = "better_ecs"
version = "0.1.0"
edition = "2021"
publish = false

[dependencies]
rand = "0.8"
lazy_static = "1"
ggez = "0.5"
