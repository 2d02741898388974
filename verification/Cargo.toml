[package]
name = "yoink"
version = "0.1.0"
edition = "2021"
publish = false

[dependencies]
serde_yaml = "*"
regex = "*"
zip = "*"
chrono = "*"
clap = { version = "*", features = ["derive"] }
ignore = "*"
num_cpus = "*"
ntfs = "*"
nt-time = "*"
minidump-writer = "*"
glob = "*"
serde = { version = "*", features = ["derive"] }
