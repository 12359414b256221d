[package]
name = "rune_arena"
version = "0.1.0"
edition = "2021"
publish = false

[dependencies]
fastrand = "2"
glam = "0.29"
noise = "*"
fluent = "*"
fluent-templates = "*"
unic-langid = "*"
