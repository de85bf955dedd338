[package]
name = "git_sql"
version = "0.1.0"
edition = "2021"
publish = false

[dependencies]
sha1 = "0.6"
hex = "0.4"
flate2 = "1"
postgres = "0.19"
git2 = { version = "0.19", default-features = false }
toml = "0.8"
