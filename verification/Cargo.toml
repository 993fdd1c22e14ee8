[package]
name = "xh"
version = "0.1.0"
edition = "2021"
publish = false

[dependencies]
anyhow = "1"
cookie_store = "*"
reqwest = { version = "0.11", default-features = false, features = ["blocking", "cookies", "multipart"] }
serde_json = { version = "1", features = ["preserve_order"] }
serde_urlencoded = "0.7"
shell-escape = "0.1"
structopt = "0.3"
url = "2"
