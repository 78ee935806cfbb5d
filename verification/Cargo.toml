[package]
name = "downqueue"
version = "0.1.0"
edition = "2021"
publish = false

[dependencies]
color-eyre = "*"
crossbeam-channel = "*"
crossterm = { version = "*", features = ["event-stream"] }
deezer = "*"
deezer_downloader = "*"
directories = "*"
futures = "*"
ratatui = "*"
tokio = { version = "*", features = ["full"] }
tokio-util = { version = "*", features = ["rt"] }
tui-input = "*"
