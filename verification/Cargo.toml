[package]
name = "project_tree"
version = "0.1.0"
edition = "2021"
publish = false

[dependencies]
druid = "0.8"
log = "0.4"
walkdir = "2"
