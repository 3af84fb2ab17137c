[package]
name = "cards"
version = "0.1.0"
edition = "2021"
publish = false

[dependencies]
pulldown-cmark = "0.12"
syntect = { version = "5", default-features = false, features = ["parsing", "default-syntaxes", "default-themes", "dump-load", "regex-fancy"] }
serde = { version = "1", features = ["derive"] }
rmp-serde = "1"
dirs = "5"
iced = { version = "0.13", default-features = false, features = ["advanced"] }
