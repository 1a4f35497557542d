[package]
name = "double_states"
version = "0.1.0"
edition = "2021"
publish = false

[dependencies]
syn = "2"
quote = "1"
proc-macro2 = "1"
double_dot_macro_types = "*"
