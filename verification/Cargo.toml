[package]
name = "neuralnet"
version = "0.1.0"
edition = "2021"
publish = false

[dependencies]
ndarray = "0.15"
ndarray-rand = "0.14"
ndarray-stats = "0.5"
plotters = { version = "0.3", default-features = false, features = ["bitmap_backend", "bitmap_encoder", "line_series"] }
rand = "0.8"
serde = { version = "1", features = ["derive"] }
serde_json = "1"
