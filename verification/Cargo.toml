[package]
name = "revm_control"
version = "0.1.0"
edition = "2021"
publish = false

[dependencies]
revm-primitives = "*"
revm-bytecode = "*"
revm-context-interface = "*"
