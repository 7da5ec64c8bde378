[package]
name = "stakpak_tui"
version = "0.1.0"
edition = "2021"
publish = false

[dependencies]
crossterm = "*"
dirs = "*"
ignore = "0.4"
image = { version = "0.25", default-features = false, features = ["png", "jpeg", "gif", "webp", "bmp", "tiff"] }
log = "0.4"
nucleo-matcher = "0.3"
open = "5"
ratatui = "0.29"
regex = "1"
serde_json = "1"
similar = "2"
tokio = { version = "1", features = ["sync", "rt", "rt-multi-thread", "time", "macros"] }
unicode-width = "0.2"
uuid = { version = "1", features = ["v4"] }
vt100 = "0.15"
