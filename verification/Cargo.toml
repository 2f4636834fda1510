[package]
name = "wbe"
version = "0.1.0"
edition = "2021"
publish = false

[dependencies]
ascii = "*"
eyre = "*"
native-tls = "*"
tokio = { version = "*", features = ["rt-multi-thread", "net", "io-util"] }
tokio-native-tls = "*"
tracing = "*"
tracing-subscriber = "*"

[dev-dependencies]
regex = "*"
