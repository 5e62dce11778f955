[package]
name = "layout_tracker"
version = "0.1.0"
edition = "2021"
publish = false

[dependencies]
getopts = "0.2"
log = "0.4"
pretty_env_logger = "*"
swayipc = "*"
