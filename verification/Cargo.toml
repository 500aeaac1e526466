[package]
name = "cargo-hatch"
version = "0.1.0"
edition = "2021"
publish = false

[dependencies]
anyhow = "1"
camino = { version = "1", features = ["serde1"] }
check_keyword = "*"
clap = { version = "4", features = ["derive"] }
clap_complete = "4"
clap_mangen = "0.2"
crates-index = "0.19"
crossterm = "0.25"
directories = "4"
git2 = "0.16"
globset = "0.4"
ignore = "0.4"
indexmap = { version = "1", features = ["serde"] }
inquire = "0.5"
mime_guess = "2"
regex = "1"
semver = "1"
serde = { version = "1", features = ["derive"] }
tera = "1"
toml = "0.5"
toml_edit = "0.19"
unicode-ident = "1"
