[package]
name = "tiramisu"
version = "0.1.0"
edition = "2021"
publish = false

[dependencies]
x86 = "*"
x86_64 = { version = "*", default-features = false, features = ["instructions"] }
pic8259 = "*"
spin = "*"
lazy_static = "*"
bitflags = "*"
