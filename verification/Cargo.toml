[package]
name = "pydantic_validators"
version = "0.1.0"
edition = "2021"
publish = false

[dependencies]
ahash = "*"
base64 = "*"
email_address = "*"
hex = "*"
speedate = "*"
strum = "*"
url = "*"
uuid = "*"
