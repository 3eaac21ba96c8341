[package]
name = "smart_archive_rar"
version = "0.1.0"
edition = "2021"
publish = false

[dependencies]
napi = "=3.16.1"
napi-derive = "=3.7.0"
