[package]
name = "language_matcher"
version = "0.1.0"
edition = "2021"
publish = false

[dependencies]
icu_locale = "2"
quick-xml = { version = "*", features = ["serialize"] }
serde = { version = "1", features = ["derive"] }
