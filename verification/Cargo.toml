[package]
name = "harmony_export"
version = "0.1.0"
edition = "2021"
publish = false

[dependencies]
rspack_core = { version = "=0.1.0", default-features = false }
swc_core = { version = "=82.2.0", features = ["common", "ecma_ast", "ecma_parser", "ecma_utils", "ecma_visit"] }
