[package]
name = "termchat"
version = "0.1.0"
edition = "2021"
publish = false

[dependencies]
serde = { version = "1", features = ["derive"] }
serde_json = "1"
tokio = { version = "1", features = ["rt-multi-thread", "macros", "net", "io-util", "io-std", "sync", "time"] }
uuid = { version = "1", features = ["v4"] }
termsize = "0.1"
unicode-width = "0.2"
