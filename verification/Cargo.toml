[package]
name = "simple_wc3"
version = "0.1.0"
edition = "2021"
publish = false

[dependencies]
iroh = "*"
tokio = { version = "1", features = ["rt-multi-thread", "macros", "net", "io-util", "sync", "time", "signal"] }
