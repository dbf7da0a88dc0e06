[package]
name = "chat_core"
version = "0.1.0"
edition = "2021"
publish = false

[dependencies]
clap = { version = "*", features = ["derive"] }
mio = { version = "*", features = ["net", "os-poll", "os-ext"] }
