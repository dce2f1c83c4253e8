[package]
name = "mscript"
version = "0.1.0"
edition = "2021"
publish = false

[dependencies]
futures = "*"
pinentry = "*"
ruma = "*"
rustyline = "*"
secrecy = "*"
tokio = { version = "*", features = ["macros", "rt", "signal"] }
tracing = "*"
url = "*"
