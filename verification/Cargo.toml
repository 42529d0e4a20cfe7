[package]
name = "aura_sync"
version = "0.1.0"
edition = "2021"
publish = false

[dependencies]
alpm = "*"
chrono = "0.4"
colored = "2"
i18n-embed = { version = "*", features = ["fluent-system"] }
i18n-embed-fl = "*"
log = "0.4"
pbr = "*"
rayon = "1"
ubyte = "*"
validated = "*"
