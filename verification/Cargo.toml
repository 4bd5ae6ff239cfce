[package]
name = "mysql_lenenc"
version = "0.1.0"
edition = "2021"
publish = false

[dependencies]
bytes = "*"
