[package]
name = "sectxtlib"
version = "0.1.0"
edition = "2021"
publish = false

[dependencies]
chrono = "*"
iri-string = "*"
oxilangtag = "*"
anyhow = "*"
argh = "*"
futures = "*"
human-panic = "*"
lazy_static = "*"
reqwest = { version = "*", default-features = false }
tokio = { version = "*", features = ["rt-multi-thread", "macros"] }
tracing = "*"
tracing-subscriber = { version = "*", features = ["env-filter", "fmt", "json"] }
url = "*"
