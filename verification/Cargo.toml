[package]
name = "webdriver_wire"
version = "0.1.0"
edition = "2021"
publish = false

[dependencies]
async-trait = "0.1"
http-client = "6"
isahc = "0.9"
serde_json = "1"
surf = "2"
