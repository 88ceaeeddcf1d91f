[package]
name = "grpc_server"
version = "0.1.0"
edition = "2021"
publish = false

[dependencies]
base64 = "=0.22.1"
bytes = "*"
env_logger = "*"
futures = "*"
futures-cpupool = "*"
httpbis = "*"
