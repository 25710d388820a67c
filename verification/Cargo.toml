[package]
name = "ctfbot"
version = "0.1.0"
edition = "2021"
publish = false

[dependencies]
tokio = { version = "1", features = ["rt", "macros", "io-util", "time", "sync"] }
poise = "*"
kube = { version = "*", features = ["runtime", "ws"] }
k8s-openapi = { version = "*", features = ["latest"] }
