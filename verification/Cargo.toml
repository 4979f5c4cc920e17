[package]
name = "field_capability"
version = "0.1.0"
edition = "2021"
publish = false
