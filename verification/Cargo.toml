[package]
name = "hybrid_version"
version = "0.1.0"
edition = "2021"
publish = false

[dependencies]
thiserror = "2"
time = { version = "0.3", features = ["formatting", "parsing"] }
tzdb = "*"
