[package]
name = "linkhealth"
version = "0.1.0"
edition = "2021"
publish = false

[dependencies]
clap = { version = "*", features = ["derive"] }
csv = "*"
gethostname = "*"
json = "*"
natord = "*"
serde = { version = "*", features = ["derive"] }
serde_json = "*"
tabled = "*"
terminal_size = "*"
