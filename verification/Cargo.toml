[package]
name = "node_helpers"
version = "0.1.0"
edition = "2021"
publish = false

[dependencies]
chrono = "0.4"
euclid = "0.22"
noise = "0.9"
percent-encoding = "2"
pyo3 = "0.23"
rand = "0.9"
rayon = "1"
regex = "1"
reqwest = { version = "0.12", features = ["blocking"] }
url = "2"
