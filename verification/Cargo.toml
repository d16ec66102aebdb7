[package]
name = "rendering"
version = "0.1.0"
edition = "2021"
publish = false

[dependencies]
pulldown-cmark = "*"
slug = "*"
syntect = "*"
tera = "*"
