[package]
name = "orchestra"
version = "0.1.0"
edition = "2021"
publish = false

[dependencies]
rand = "0.4"
protobuf = "2"
zmq = "0.9"
