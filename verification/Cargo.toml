[package]
name = "bughouse_chess"
version = "0.1.0"
edition = "2021"
publish = false

[dependencies]
itertools = "*"
rand = "0.8"
unicode-normalization = "*"
unicode-segmentation = "*"
censor = "*"
cookie = { version = "*", features = ["private"] }
http = "*"
serde = { version = "1", features = ["derive"] }
