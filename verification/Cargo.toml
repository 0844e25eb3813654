[package]
name = "sequential_line_search"
version = "0.1.0"
edition = "2021"
publish = false
