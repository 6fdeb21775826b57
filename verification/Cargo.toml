[package]
name = "takumi_html"
version = "0.1.0"
edition = "2021"
publish = false

[dependencies]
takumi = "*"
scraper = "*"
ego-tree = "*"
unicode-segmentation = "*"
base64 = "0.22"
mime_guess = "*"
minijinja = { version = "2", features = ["loader"] }
serde_json = "*"
comrak = "*"
syntect = "*"
chrono = "*"
image = "*"
