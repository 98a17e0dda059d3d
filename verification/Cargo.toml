[package]
name = "luafront"
version = "0.1.0"
edition = "2021"
publish = false

[dependencies]
cranelift-bforest = "=0.135.5"
lexical = { version = "=6.1.1", features = ["format", "radix"] }
