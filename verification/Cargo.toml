[package]
name = "rustc_codegen_qir"
version = "0.1.0"
edition = "2021"
publish = false
