[package]
name = "cue_lexer"
version = "0.1.0"
edition = "2021"

[dependencies]
unicode-general-category = "*"
