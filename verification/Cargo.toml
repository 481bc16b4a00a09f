[package]
name = "daily_rotate_file"
version = "0.1.0"
edition = "2021"
publish = false

[dependencies]
chrono = "*"
logform = "*"
winston_transport = "*"
