[package]
name = "unco"
version = "0.1.0"
edition = "2021"
publish = false

[dependencies]
serde = { version = "1", features = ["derive"] }
serde_json = "1"
proc-macro2 = "1"
quote = "1"
syn = { version = "2", features = ["full"] }
once_cell = "1"
anyhow = "1"
surrealdb = { version = "1", default-features = false, features = ["protocol-ws"] }
