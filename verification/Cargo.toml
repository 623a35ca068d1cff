[package]
name = "agent_computer_use_macos"
version = "0.1.0"
edition = "2021"
publish = false

[dependencies]
async-trait = "0.1"
core-foundation = { version = "0.10", default-features = false }
core-graphics = { version = "0.24", default-features = false }
foreign-types = "0.5"
tracing = "0.1"
