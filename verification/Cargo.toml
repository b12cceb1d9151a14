[package]
name = "shell"
version = "0.1.0"
edition = "2021"
publish = false

[dependencies]
chrono = "0.4"
chrono-tz = "*"
ctrlc = "3"
iana-time-zone = "0.1"
libc = "0.2"
term_size = "0.3"
users = "0.11"
