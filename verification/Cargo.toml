[package]
name = "datablind_policy"
version = "1.5.7"
edition = "2021"
publish = false

[dependencies]
anyhow = "1"
flate2 = "1"
pdk = "*"
serde = { version = "1", features = ["derive"] }
serde_json = "1"
