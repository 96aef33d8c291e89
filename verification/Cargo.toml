[package]
name = "mem_agent"
version = "0.1.0"
edition = "2021"
publish = false

[dependencies]
unicode-segmentation = "1"
chrono = "0.4"
rand = "0.8"
serde = { version = "1", features = ["derive"] }
serde_json = "1"
clap = { version = "4", features = ["derive"] }
rusqlite = { version = "*", features = ["bundled"] }
reqwest = { version = "0.12", default-features = false, features = ["blocking", "json"] }
bytemuck = "1"
bincode = { version = "2", features = ["serde"] }
rayon = "1"
wide = "*"
tokenizers = { version = "*", default-features = false, features = ["onig"] }
candle-core = "*"
candle-onnx = "*"
