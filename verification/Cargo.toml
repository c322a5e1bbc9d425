[package]
name = "cddl_parsing"
version = "0.1.0"
edition = "2021"
publish = false

[dependencies]
cddl = "=0.5.6"
serde_json = "1"
