[package]
name = "node_test_kit"
version = "0.1.0"
edition = "2021"
publish = false

[dependencies]
crossbeam-channel = "*"
nix = { version = "*", features = ["user"] }
websocket = { version = "*", default-features = false, features = ["sync"] }
