[package]
name = "arthas_launcher"
version = "0.1.0"
edition = "2021"
publish = false

[dependencies]
semver = "1"
dirs = "*"
jni = { version = "0.21", features = ["invocation"] }
reqwest = { version = "*", features = ["blocking"] }
temp-dir = "*"
zip-extract = "*"
