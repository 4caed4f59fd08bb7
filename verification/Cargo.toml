[package]
name = "adr_core"
version = "0.1.0"
edition = "2021"
publish = false

[dependencies]
regex = "1"
walkdir = "2"
slog = "2"
slog-term = "2"
slog-async = "2"
