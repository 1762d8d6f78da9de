[package]
name = "rupair"
version = "0.1.0"
edition = "2021"
publish = false

[dependencies]
syn = { version = "=2.0.119", features = ["full"] }
proc-macro2 = { version = "=1.0.107", features = ["span-locations"] }
quote = "=1.0.47"
anyhow = "=1.0.104"
tempfile = "=3.27.0"
walkdir = "=2.5.0"
