[package]
name = "entity_lang"
version = "0.1.0"
edition = "2021"

[dependencies]
owo-colors = "*"
