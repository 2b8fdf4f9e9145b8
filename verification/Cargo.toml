[package]
name = "gluex"
version = "0.1.0"
edition = "2021"
publish = false

[dependencies]
chrono = "0.4"
dashmap = "6"
parking_lot = "0.12"
rusqlite = "*"
thiserror = "*"
