[package]
name = "dfs_host"
version = "0.1.0"
edition = "2021"
publish = false

[dependencies]
axerrno = "*"
bincode = "2"
crossbeam = "*"
dashmap = "*"
env_logger = "*"
log = "*"
