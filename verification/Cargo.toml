[package]
name = "liao_tools"
version = "0.1.0"
edition = "2021"
publish = false

[dependencies]
quick-xml = "0.31"
zip = { version = "0.6", default-features = false, features = ["deflate"] }
image = { version = "0.24", default-features = false, features = ["png", "webp"] }
calamine = "*"
rust_xlsxwriter = "*"
serde = { version = "1", features = ["derive"] }
serde_json = "1"
dirs = "*"
strsim = "*"
