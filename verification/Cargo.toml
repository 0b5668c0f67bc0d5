[package]
name = "sage_os"
version = "0.1.0"
edition = "2021"
publish = false

[dependencies]
spin = "*"
lazy_static = "*"
linked_list_allocator = "*"
volatile = "*"
