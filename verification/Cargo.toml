[package]
name = "octree_store"
version = "0.1.0"
edition = "2021"
publish = false

[dependencies]
lmdb = "*"
serde = { version = "*", features = ["derive"] }
serde_json = "*"
