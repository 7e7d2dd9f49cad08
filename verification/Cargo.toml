[package]
name = "desk_utils"
version = "0.1.0"
edition = "2021"
publish = false

[dependencies]
walkdir = "2"
fs_extra = "1"
