[package]
name = "boss"
version = "0.1.0"
edition = "2021"
publish = false

[dependencies]
clap = "*"
cliclack = "*"
console = "*"
log = "*"
simplelog = "*"
