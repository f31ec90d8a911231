[package]
name = "role_groups"
version = "0.1.0"
edition = "2021"
publish = false

[dependencies]
anyhow = "1"
poise = "0.6"
tokio = { version = "1", features = ["macros", "rt-multi-thread"] }
