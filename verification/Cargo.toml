[package]
name = "crypto_crawler"
version = "0.1.0"
edition = "2021"
publish = false

[dependencies]
base64 = "=0.13.1"
hmac = "=0.12.1"
sha2 = "=0.10.9"
log = "=0.4.34"
reqwest = { version = "=0.11.27", default-features = false, features = ["blocking"] }
crypto-markets = "=1.3.11"
crypto-market-type = "=1.1.6"
