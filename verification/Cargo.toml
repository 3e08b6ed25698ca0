[package]
name = "atlas"
version = "0.1.0"
edition = "2021"
publish = false

[dependencies]
bytesize = "1"
textwrap = { version = "0.16", features = ["terminal_size"] }
prettytable-rs = "0.10"
clap = { version = "4", features = ["derive"] }
