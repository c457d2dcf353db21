[package]
name = "td_shim"
version = "0.1.0"
edition = "2021"
publish = false

[dependencies]
zerocopy = "=0.6.6"
x86_64 = { version = "=0.14.13", default-features = false, features = ["instructions"] }
xmas-elf = "=0.8.0"
linked_list_allocator = { version = "=0.9.1", default-features = false, features = ["use_spin"] }
clap = { version = "=3.2.25", features = ["derive"] }
