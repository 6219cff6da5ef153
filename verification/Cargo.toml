[package]
name = "beancount_statements"
version = "0.1.0"
edition = "2021"
publish = false

[dependencies]
anyhow = "1"
chrono = { version = "0.4", default-features = false, features = ["std"] }
clap = { version = "3", features = ["derive"] }
csv = "1"
duct = "0.13"
itertools = "0.10"
xmltree = "0.10"
