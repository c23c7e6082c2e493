[package]
name = "test_os"
version = "0.1.0"
edition = "2021"
publish = false

[dependencies]
pc-keyboard = "0.7"
x86_64 = "0.14"
pic8259 = "0.10"
spin = "0.9"
lazy_static = "1"
