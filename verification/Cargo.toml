[package]
name = "mayoos"
version = "0.1.0"
edition = "2021"
publish = false

[dependencies]
x86_64 = { version = "=0.15.5", default-features = false, features = ["instructions"] }
pc-keyboard = "=0.9.0"
crossbeam-queue = { version = "=0.3.14", default-features = false, features = ["alloc"] }
spin = "=0.9.9"
lazy_static = { version = "=1.5.1", features = ["spin_no_std"] }
conquer-once = { version = "=0.4.0", default-features = false }
futures-util = { version = "=0.3.34", default-features = false, features = ["alloc"] }
linked_list_allocator = "=0.10.6"
bootloader = { version = "=0.9.35", features = ["map_physical_memory"] }
pic8259_simple = "=0.2.0"
