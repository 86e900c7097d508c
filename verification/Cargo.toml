[package]
name = "particle_tracker"
version = "0.1.0"
edition = "2021"
publish = false

[dependencies]
rand = "0.5"
statrs = "0.10"
nalgebra-glm = "0.1"
glium = "0.25"
rayon = "1"
serde = { version = "1", features = ["derive"] }
serde_json = "1"
structopt = "0.2"
