[package]
name = "webber"
version = "0.1.0"
edition = "2021"
publish = false

[dependencies]
url = "2"
scraper = "*"
serde_json = "1"
csscolorparser = "*"
language-tags = "*"
blake2 = "*"
hex = "*"
deunicode = "*"
snailquote = "*"
flate2 = "1"
tar = "*"
ar_archive_writer = "*"
reqwest = { version = "*", default-features = false, features = ["blocking"] }
xdg = "*"
