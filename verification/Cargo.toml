[package]
name = "market_maker"
version = "0.1.0"
edition = "2021"
publish = false

[dependencies]
log = "0.4"
log4rs = "1"
rand = "0.8"
tokio = { version = "1", features = ["macros", "rt", "rt-multi-thread", "sync", "time"] }
