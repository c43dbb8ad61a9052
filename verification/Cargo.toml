[package]
name = "kak_tree_sitter"
version = "0.1.0"
edition = "2021"
publish = false

[dependencies]
tokio = { version = "1", features = ["rt", "net", "io-util", "sync", "macros"] }
daemonize = "*"
dirs = "*"
