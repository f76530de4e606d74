[package]
name = "helpcore"
version = "0.1.0"
edition = "2021"
publish = false

[dependencies]
serenity = { version = "=0.12.5", features = ["collector"] }
tokio = { version = "=1.53.2", features = ["macros", "rt", "sync", "time"] }
futures-util = "=0.3.34"
