[package]
name = "store_inventory"
version = "0.1.0"
edition = "2021"
publish = false

[dependencies]
bcrypt = "*"
