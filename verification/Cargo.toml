[package]
name = "hurlsp"
version = "0.1.0"
edition = "2021"
publish = false

[dependencies]
futures = "0.3"
log = "0.4"
lsp-types = "0.95"
memchr = "2"
phf = { version = "0.11", features = ["macros"] }
ropey = "1.6"
serde = { version = "1", features = ["derive"] }
serde_json = "1"
simple-logging = "2"
tokio = { version = "1", features = ["io-std", "io-util", "macros", "rt-multi-thread"] }
tokio-util = { version = "0.7", features = ["codec"] }
url = "2"
