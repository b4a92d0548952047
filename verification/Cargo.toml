[package]
name = "go2_gait_runner"
version = "0.1.0"
edition = "2021"
publish = false

[dependencies]
nalgebra = "0.33"
serde_json = "1"
zenoh = { version = "1", default-features = false, features = ["transport_tcp", "transport_udp"] }
