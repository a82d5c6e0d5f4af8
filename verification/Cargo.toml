[package]
name = "mdpages"
version = "0.1.0"
edition = "2021"
publish = false

[dependencies]
regex = "=1.13.1"
pulldown-cmark = { version = "=0.13.5", default-features = false, features = ["html"] }
yaml-front-matter = "=0.1.0"
serde = { version = "=1.0.229", features = ["derive"] }
axum = "=0.6.20"
tokio = { version = "=1.54.1", features = ["fs", "macros", "rt-multi-thread", "net"] }
shuttle-runtime = "=0.35.2"
shuttle-axum = "=0.35.2"
shuttle-metadata = "=0.35.2"
