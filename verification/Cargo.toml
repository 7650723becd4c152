[package]
name = "embedded_runtime"
version = "0.1.0"
edition = "2021"

[dependencies]
cortex-m = "*"
