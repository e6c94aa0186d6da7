[package]
name = "run_checks"
version = "0.1.0"
edition = "2021"
publish = false

[dependencies]
aho-corasick = "*"
regex = "*"
walkdir = "*"
get_if_addrs = "*"
owo-colors = "*"
comfy-table = "*"
clap = { version = "*", features = ["derive"] }
tokio = { version = "*", features = ["macros", "rt-multi-thread", "process", "time"] }
futures = "*"
