[package]
name = "asset_cache"
version = "0.1.0"
edition = "2021"
publish = false

[dependencies]
filetime = "0.2"
fluent-bundle = "0.15"
lazy_static = "1"
native-dialog = "0.7"
tempfile = "3"
whoami = "1"
