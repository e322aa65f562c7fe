[package]
name = "trackrecords"
version = "0.1.0"
edition = "2021"
publish = false

[dependencies]
xml-rs = "*"
chrono = { version = "*", features = ["serde"] }
csv = "*"
serde = "*"
serde_derive = "*"
structopt = "*"
