[package]
name = "fastalloc"
version = "0.1.0"
edition = "2021"
publish = false

[dependencies]
crossbeam = "*"
serde = { version = "*", features = ["derive"] }
serde_json = "*"
tracing = "*"
