[package]
name = "file-tree"
version = "0.1.0"
edition = "2021"
publish = false

[dependencies]
bimap = "0.6"
thiserror = "1"
