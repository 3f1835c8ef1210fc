[package]
name = "endpoint_gen"
version = "0.1.0"
edition = "2021"
publish = false

[dependencies]
chrono = "=0.4.45"
clap = { version = "*", features = ["derive"] }
convert_case = "=0.12.0"
eyre = "*"
futures = "*"
hex = "=0.4.3"
hyper = { version = "*", features = ["server", "http1"] }
hyper-util = { version = "*", features = ["tokio"] }
http-body-util = "*"
itertools = "*"
kanal = "*"
regex = "*"
ron = "*"
semver = "*"
serde = { version = "*", features = ["derive"] }
serde_json = "*"
serde_path_to_error = "*"
tokio = { version = "*", features = ["rt-multi-thread", "net", "sync", "macros", "io-util", "time"] }
tokio-tungstenite = "=0.30.0"
toml = "*"
tracing = "*"
urlencoding = "=2.1.3"
walkdir = "*"
