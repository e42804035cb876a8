[package]
name = "mongo_scram"
version = "0.1.0"
edition = "2021"
publish = false

[dependencies]
data-encoding = "*"
hex = "*"
hmac = "*"
md-5 = "*"
pbkdf2 = "*"
sha1 = "*"
textnonce = "*"
r2d2 = "*"
