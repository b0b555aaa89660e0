[package]
name = "oondl"
version = "0.1.0"
edition = "2021"
publish = false

[dependencies]
url = "*"
html-escape = "*"
sanitise-file-name = "*"
roxmltree = "*"
reqwest = { version = "*", default-features = false, features = ["blocking"] }
