[package]
name = "tunepipe"
version = "0.1.0"
edition = "2021"
publish = false

[dependencies]
csv = "1"
serde_json = "1"
zip = "*"
id3 = "*"
reqwest = { version = "*", default-features = false, features = ["blocking", "rustls-tls"] }
