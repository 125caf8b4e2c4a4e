[package]
name = "lazymvn"
version = "0.1.0"
edition = "2021"
publish = false

[dependencies]
regex = "=1.13.1"
unicode-width = "=0.2.3"
globset = "=0.4.21"
log = "=0.4.35"
chrono = "=0.4.45"
directories = "=6.0.0"
ratatui = "=0.30.2"
notify = "=8.2.1"
fuzzy-matcher = "=0.3.7"
arboard = { version = "=3.7.0", default-features = false }
notify-rust = "4"
