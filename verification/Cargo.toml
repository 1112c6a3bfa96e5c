[package]
name = "mesh_bench"
version = "0.1.0"
edition = "2021"
publish = false

[dependencies]
rand = "0.8"
apache-avro = "*"
serde = { version = "1", features = ["derive"] }
uuid = "1"
