[package]
name = "mh_z19c"
version = "0.1.0"
edition = "2021"
publish = false

[dependencies]
embedded-hal = "0.2.7"
nb = "1"
rppal = { version = "*", features = ["hal"] }
tokio = { version = "1", features = ["macros", "rt", "sync"] }
tide = "0.16"
prometheus = "0.13"
protobuf = "2"
