[package]
name = "ictmon"
version = "0.1.0"
edition = "2021"
publish = false

[dependencies]
tokio = "=0.1.22"
zmq = "0.10"
