[package]
name = "logic_machine"
version = "0.1.0"
edition = "2021"
publish = false

[dependencies]
macroquad = "*"
