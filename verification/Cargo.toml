[package]
name = "mikino_expr"
version = "0.1.0"
edition = "2021"
publish = false

[dependencies]
num = "*"
rsmt2 = "*"
