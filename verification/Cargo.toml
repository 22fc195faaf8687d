[package]
name = "alt_cmp"
version = "0.1.0"
edition = "2021"
publish = false

[dependencies]
clap = { version = "=4.6.7", features = ["derive"] }
colored = "=3.1.1"
indicatif = "=0.18.6"
prettytable-rs = "=0.10.0"
reqwest = { version = "=0.13.5", features = ["blocking"] }
version-compare = "=0.2.1"
xz2 = "=0.1.7"

[dev-dependencies]
regex = "1"
