[package]
name = "tasklist"
version = "0.1.0"
edition = "2021"
publish = false

[dependencies]
ansi_term = "0.12"
home = "0.5"
tabwriter = "1"
