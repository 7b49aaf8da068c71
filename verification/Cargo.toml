[package]
name = "binspect"
version = "0.1.0"
edition = "2021"
publish = false

[dependencies]
glob = "0.3"
log = "0.4"
num-traits = "0.2"
ratatui = "*"
rustc-hash = "2"
tui-logger = "*"
