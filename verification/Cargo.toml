[package]
name = "row2pgcopy"
version = "0.1.0"
edition = "2021"
publish = false

[dependencies]
bytes = "1"
postgres-types = { version = "0.2", features = ["with-time-0_3"] }
serde = "1"
time = { version = "0.3", features = ["parsing"] }
