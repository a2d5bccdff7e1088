[package]
name = "ts_checker_core"
version = "0.1.0"
edition = "2021"
publish = false
