[package]
name = "boxtrace"
version = "0.1.0"
edition = "2021"
publish = false

[dependencies]
minifb = "*"
nalgebra-glm = "*"
once_cell = "1"
rayon = "1"
image = { version = "0.25", default-features = false, features = ["jpeg", "png"] }
