[package]
name = "s3_accessor"
version = "0.1.0"
edition = "2021"
publish = false

[dependencies]
base64 = "=0.13.1"
md5 = "=0.7.0"
time = { version = "=0.3.55", features = ["parsing"] }
reqsign = { version = "=0.20.7", features = ["aws-v4"] }
http = "1"
hyper = { version = "1", features = ["client", "http1"] }
hyper-util = { version = "0.1", features = ["client", "client-legacy", "http1", "tokio"] }
http-body-util = "0.1"
bytes = "1"
futures = "0.3"
