[package]
name = "llm-cli"
version = "0.1.0"
edition = "2021"
publish = false

[dependencies]
bincode = "1.3"
clap = { version = "=4.6.7", features = ["derive"] }
color-eyre = { version = "=0.6.5", default-features = false }
llm = "=0.1.1"
log = "=0.4.34"
num_cpus = "=1.17.0"
rand = "=0.8.8"
