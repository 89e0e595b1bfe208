[package]
name = "page_server"
version = "0.1.0"
edition = "2021"
publish = false

[dependencies]
regex = "1"
tokio = { version = "1", features = ["fs", "rt"] }
log = "0.4"
simple_logger = "*"
time = { version = "0.3", features = ["macros"] }
ctrlc = "3"
whoami = "1"
