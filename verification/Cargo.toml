[package]
name = "remu"
version = "0.1.0"
edition = "2021"
publish = false

[dependencies]
anyhow = "1"
clap = { version = "4", features = ["derive"] }
clap-verbosity-flag = "*"
crossterm = "*"
dynasm = "*"
dynasmrt = "*"
elf = "*"
fnv = "1"
log = "0.4"
num-derive = "*"
num-traits = "*"
ratatui = "*"
ratatui-textarea = "*"
simplelog = "*"
thiserror = "*"
