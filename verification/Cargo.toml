[package]
name = "sim8086"
version = "0.1.0"
edition = "2021"
publish = false
