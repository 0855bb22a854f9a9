[package]
name = "portredirect"
version = "0.1.0"
edition = "2021"
publish = false

[dependencies]
sha2 = "0.10"
hex = "0.4"
getrandom = "0.3"
anyhow = "1"
tokio = { version = "1", features = ["macros", "rt-multi-thread", "net", "io-util", "time", "sync"] }
tokio-util = { version = "0.7", features = ["compat"] }
quinn = { version = "0.11", default-features = false, features = ["runtime-tokio", "rustls-ring", "log"] }
rustls = { version = "0.23", default-features = false, features = ["ring", "std", "logging", "tls12"] }
rustls-pemfile = "2"
rcgen = "0.13"
secrecy = "0.10"
tracing = "0.1"
tracing-subscriber = "0.3"
clap = { version = "4", features = ["derive"] }
dirs = "6"
prometheus = { version = "0.13", default-features = false }
warp = { version = "0.3", default-features = false }
lazy_static = "1"
chrono = "0.4"
