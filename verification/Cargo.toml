[package]
name = "lateral"
version = "0.2.1"
edition = "2021"
publish = false

[dependencies]
pc-keyboard = "=0.9.0"
crossbeam-queue = "=0.3.14"
