[package]
name = "tera_shortcodes"
version = "0.1.0"
edition = "2021"
publish = false

[dependencies]
once_cell = "1"
reqwest = { version = "0.12", default-features = false }
tera = { version = "1", default-features = false }
tokio = { version = "1", features = ["rt-multi-thread"] }
