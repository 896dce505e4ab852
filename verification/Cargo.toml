[package]
name = "chunked-bytes"
version = "0.3.0"
edition = "2021"

[dependencies]
bytes = "=1.0.1"
futures = "0.1"
range-split = "*"
strchunk = "*"
tokio-io = "0.1"
