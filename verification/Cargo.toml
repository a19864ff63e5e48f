[package]
name = "jax"
version = "0.1.0"
edition = "2021"
publish = false

[dependencies]
regex = "=1.13.1"
pulldown-cmark = "=0.13.6"
uuid = "=1.29.0"
owo-colors = "=4.4.0"
comfy-table = "=7.2.2"
base64 = "0.22"
url = "2"
time = { version = "0.3", features = ["formatting"] }
