[package]
name = "rgpui-term"
version = "0.1.0"
edition = "2021"
publish = false

[dependencies]
alacritty_terminal = "*"
anyhow = "*"
dirs = "*"
futures = "*"
itertools = "*"
log = "*"
rgpui = { version = "*", default-features = false }
serde = { version = "*", features = ["derive"] }
smol = "*"
toml = "*"
