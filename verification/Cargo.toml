[package]
name = "rru_common"
version = "0.1.0"
edition = "2021"
publish = false

[dependencies]
xml-rs = "*"
clap = "2"
termcolor = "*"
tokio = { version = "*", features = ["macros", "rt-multi-thread"] }
reqwest = { version = "*", default-features = false }
