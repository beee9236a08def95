[package]
name = "smol_os"
version = "0.1.0"
edition = "2021"
publish = false

[dependencies]
crossbeam-queue = "0.2"
futures-util = "0.3"
conquer-once = "0.4"
spin = "0.9"
lazy_static = "1"
pc-keyboard = "0.6"
