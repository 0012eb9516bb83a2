[package]
name = "clojure"
version = "0.1.0"
edition = "2021"
publish = false

[dependencies]
anyhow = "*"
dunce = "*"
indicatif = "*"
md-5 = "*"
tempfile = "*"
which = "*"

[dependencies.reqwest]
version = "*"
default-features = false
features = ["blocking"]

[dependencies.zip]
version = "*"
default-features = false
features = ["deflate"]
