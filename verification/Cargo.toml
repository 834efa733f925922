[package]
name = "wikibot"
version = "0.1.0"
edition = "2021"
publish = false

[dependencies]
json = "0.11"
chrono = "0.4"
rand = "0.3"
lazy_static = "1"
reqwest = { version = "0.10", features = ["blocking"] }
atom_syndication = "0.12"
serenity = "0.8"
