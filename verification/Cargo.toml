[package]
name = "lifx_api_server"
version = "0.1.0"
edition = "2021"
publish = false

[dependencies]
lifx-rs = "*"
rand = "0.8"
rouille = "3"
serde = { version = "1", features = ["derive"] }
serde_json = "1"
palette = "*"
colors-transform = "*"
get_if_addrs = "*"
sudo = "*"
