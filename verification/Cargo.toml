[package]
name = "nova_vm"
version = "0.1.0"
edition = "2021"
publish = false

[dependencies]
oxc_allocator = "=0.115.0"
oxc_ast = "=0.115.0"
oxc_regular_expression = "=0.115.0"
regress = { version = "=0.12.0", features = ["utf16"] }
wtf8 = "=0.1.0"
