[package]
name = "dragonfly"
version = "0.1.0"
edition = "2021"
publish = false

[dependencies]
css-color = "*"
url = "*"
reqwest = { version = "*", default-features = false }
scraper = "*"
ego-tree = "*"
html5ever = "*"
fontdue = "*"
font-kit = "*"
bytes = "*"
bytesize = "*"
log = "*"
thiserror = "*"
cgmath = "*"
