[package]
name = "direct_buffer"
version = "0.1.0"
edition = "2021"
publish = false

[dependencies]
futures = "=0.1.31"
tower-service = "=0.2.0"
