[package]
name = "flits"
version = "0.1.0"
edition = "2021"
publish = false

[dependencies]
ansi-parser = "=0.9.1"
duct = "=1.1.2"
flate2 = "=1.1.10"
hound = "=3.5.1"
image = { version = "=0.25.10", default-features = false, features = ["png"] }
puremp3 = "=0.1.0"
serde = { version = "=1.0.229", features = ["derive"] }
serde_json = "=1.0.154"
swf = "=0.4.0"
ttf-parser = "*"
