[package]
name = "todo_list"
version = "0.1.0"
edition = "2021"
publish = false

[dependencies]
anyhow = "=1.0.104"
comfy-table = "=7.2.2"
home = "=0.5.12"
