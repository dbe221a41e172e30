[package]
name = "grezi"
version = "0.1.0"
edition = "2021"
publish = false

[dependencies]
indexmap = "2"
ahash = "0.8"
emath = "*"
ecolor = "*"
smallvec = "1"
nominals = "*"
jotdown = "*"
emojis = "*"
ropey = "1"
clap = "4"
