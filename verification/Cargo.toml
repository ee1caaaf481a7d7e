[package]
name = "prettyprint"
version = "0.1.0"
edition = "2021"
publish = false

[dependencies]
syntect = { version = "5", default-features = false, features = ["default-fancy"] }
console = "*"
shell-words = "*"
directories = "*"
