[package]
name = "pma_tree"
version = "0.1.0"
edition = "2021"
publish = false

[dependencies]
encoding_rs = "*"
encoding_rs_io = "*"
quick-xml = { version = "*", features = ["serialize"] }
serde = { version = "*", features = ["derive"] }
