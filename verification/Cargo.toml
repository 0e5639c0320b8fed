[package]
name = "rvpacker_txt"
version = "0.1.0"
edition = "2021"
publish = false

[dependencies]
marshal-rs = "=4.0.1"
serde_json = "=1.0.154"
serde = { version = "=1.0.229", features = ["derive"] }
gxhash = "=3.5.0"
thiserror = "=2.0.21"
log = "=0.4.35"
flate2 = "1"
