[package]
name = "maze_runner"
version = "0.1.0"
edition = "2021"
publish = false

[dependencies]
font8x8 = "0.3"
minifb = "0.27"
image = { version = "0.24", default-features = false, features = ["png"] }
nalgebra-glm = "0.18"
