[package]
name = "arch_manwarn"
version = "0.1.0"
edition = "2021"
publish = false

[dependencies]
nanohtml2text = "*"
rss = "*"
minreq = { version = "*", features = ["https"] }
rayon = "*"
serde = { version = "1", features = ["derive"] }
serde_json = "1"
toml = "*"
once_cell = "1"
feed-rs = "*"
reqwest = { version = "*", features = ["blocking"] }
