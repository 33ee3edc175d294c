[package]
name = "bridge_rewrite"
version = "0.1.0"
edition = "2021"
publish = false

[dependencies]
itertools = "0.10"
moveit = "*"
proc-macro2 = "1"
quote = "1"
syn = { version = "1", features = ["full"] }
