[package]
name = "boringos"
version = "0.1.0"
edition = "2021"
publish = false

[dependencies]
spin = "*"
raw-cpuid = "*"
x86_64 = { version = "*", default-features = false, features = ["instructions"] }
multiboot2 = "*"
