[package]
name = "enigma_3d"
version = "0.1.0"
edition = "2021"
publish = false

[dependencies]
chrono = "0.4"
colored = "2"
serde = { version = "1", features = ["derive"] }
serde_json = "1"
uuid = { version = "1", features = ["v4"] }
nalgebra = "0.32"
nalgebra-glm = "0.18"
gltf = "1"
image = { version = "0.24", default-features = false, features = ["png", "hdr"] }
obj = "0.10"
indexmap = "2"
lru = "0.12"
rayon = "1"
rand = "0.8"
