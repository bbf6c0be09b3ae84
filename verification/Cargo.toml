[package]
name = "datetime_select"
version = "0.1.0"
edition = "2021"
publish = false

[dependencies]
chrono = "0.4"
console = "0.15"
