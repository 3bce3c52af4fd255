[package]
name = "counter_stress"
version = "0.1.0"
edition = "2021"
publish = false

[dependencies]
diesel = { version = "1.4", features = ["sqlite", "r2d2"] }
r2d2 = "0.8"
libsqlite3-sys = { version = "*", features = ["bundled"] }
