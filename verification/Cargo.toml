[package]
name = "html2md_lists"
version = "0.1.0"
edition = "2021"
publish = false

[dependencies]
markup5ever_rcdom = "=0.39.0"

[dev-dependencies]
markup5ever = "=0.39.0"
