[package]
name = "paxos_node"
version = "0.1.0"
edition = "2021"
publish = false

[dependencies]
indexmap = "2"
tokio = { version = "1", features = ["net", "io-util", "sync", "rt-multi-thread", "macros", "time"] }
clap = { version = "4", features = ["derive"] }
hostname = "0.4"
