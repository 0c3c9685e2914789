[package]
name = "node_resolve"
version = "2.4.0"
edition = "2021"
publish = false

[dependencies]
node-builtins = "*"
serde_json = "*"
