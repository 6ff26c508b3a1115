[package]
name = "form_inputs"
version = "0.1.0"
edition = "2021"
publish = false

[dependencies]
chrono = "=0.4.45"
itertools = "=0.15.0"
rust_decimal = "=1.43.0"
