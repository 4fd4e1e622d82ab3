[package]
name = "epub_stream_cleaner"
version = "0.1.0"
edition = "2021"
publish = false

[dependencies]
lol_html = "*"
quick-xml = "*"
url = "2"
zip = { version = "*", default-features = false, features = ["deflate"] }
tempfile = "3"
rayon = "1"
anyhow = "1"
thiserror = "*"
clap = { version = "4", features = ["derive"] }
serde = { version = "1", features = ["derive"] }
serde_json = "1"

[dev-dependencies]
