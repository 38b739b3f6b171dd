[package]
name = "netease-cloud-music-linux"
version = "0.1.0"
edition = "2021"
publish = false

[dependencies]
serde_json = "1"
regex = "1"
openssl = "0.10"
base64 = "0.22"
hex = "0.4"
urlqstring = "*"
anyhow = "1"
log = "0.4"
isahc = "1"
cookie_store = "*"
qrcode-generator = "*"
