[package]
name = "mgit"
version = "0.1.0"
edition = "2021"
publish = false

[dependencies]
ansi_term = "0.11"
chrono = "0.4"
clap = "2"
crossbeam = "0.7"
crossbeam-channel = "0.3"
flame = "0.2"
git2 = { version = "*", default-features = false }
indexmap = "1"
libc = "0.2"
pager = "*"
rust-ini = "0.13"
signal-hook = "0.1"
termion = "1.5"
users = "0.11"
walkdir = "2"
