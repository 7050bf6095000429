[package]
name = "recruit_panels"
version = "0.1.0"
edition = "2021"
publish = false

[dependencies]
dashmap = "*"
