[package]
name = "vc_reflect"
version = "0.1.0"
edition = "2021"
publish = false

[dependencies]
serde_core = "1"
