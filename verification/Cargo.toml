[package]
name = "num_format"
version = "0.1.0"
edition = "2021"
publish = false

[dependencies]
lazy_static = "1"
widestring = "1"
winapi = { version = "0.3", features = ["errhandlingapi", "minwindef", "winnls", "winnt"] }

[dev-dependencies]
ryu = "1"
