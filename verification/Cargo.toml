[package]
name = "validator-grpc"
version = "0.1.0"
edition = "2021"
publish = false

[dependencies]
bitcoin = "0.32"
buffa = "*"
connectrpc = "*"
futures = "0.3"
nonempty = "*"
tokio-stream = { version = "0.1", features = ["sync"] }
tracing = "0.1"
