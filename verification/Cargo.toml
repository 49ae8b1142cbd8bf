[package]
name = "kernel_core"
version = "0.1.0"
edition = "2021"
publish = false

[dependencies]
bit_field = "*"
x86_64 = { version = "*", default-features = false, features = ["instructions"] }
multiboot2 = { version = "*", default-features = false }
pc-keyboard = "*"
spin = "*"
volatile = "*"
crossbeam-queue = { version = "*", default-features = false, features = ["alloc"] }
futures-util = { version = "*", default-features = false, features = ["alloc"] }
