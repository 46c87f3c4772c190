[package]
name = "jpdb"
version = "0.1.0"
edition = "2021"
publish = false

[dependencies]
anyhow = "=1.0.104"
argh = "=0.1.19"
crossterm = "=0.28.1"
env_logger = "=0.11.11"
gdbstub = "=0.7.10"
log = "=0.4.35"
pyo3 = "=0.22.6"
ratatui = "=0.29.0"
wellen = "=0.25.7"
