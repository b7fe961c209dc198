[package]
name = "craby"
version = "0.1.0"
edition = "2021"
publish = false

[dependencies]
xxhash-rust = { version = "=0.8.19", features = ["xxh3"] }
email_address = "=0.2.9"
url = "=2.5.8"
anyhow = "=1.0.104"
log = "=0.4.35"
serde = { version = "=1.0.229", features = ["derive"] }
serde_json = "=1.0.154"
owo-colors = "=4.4.0"
indicatif = "=0.18.6"
inquire = "=0.9.4"
handlebars = "=6.4.4"
walkdir = "=2.5.0"
chrono = "=0.4.45"
indoc = "=2.0.8"
oxc = { version = "=0.143.0", features = ["semantic", "ast_visit"] }
cbindgen = { version = "=0.29.4", default-features = false }
cxx-build = "=1.0.205"
reqwest = { version = "=0.13.5", default-features = false, features = ["blocking", "json"] }
