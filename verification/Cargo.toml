[package]
name = "rendering"
version = "0.1.0"
edition = "2021"
publish = false

[dependencies]
ash = "=0.38.0+1.3.281"
thiserror = "=2.0.21"
rustix = { version = "=1.1.6", features = ["time"] }
