[package]
name = "onenote_parser"
version = "0.1.0"
edition = "2021"
publish = false

[dependencies]
bytes = "1"
sanitise-file-name = "1"
log = "0.4"
uuid = "1"

[dev-dependencies]
tempfile = "3"
