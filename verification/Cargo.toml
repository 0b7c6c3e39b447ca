[package]
name = "sshkey_probe"
version = "0.1.0"
edition = "2021"
publish = false

[dependencies]
chrono = "0.4"
clap = { version = "3.2", features = ["derive"] }
console = "0.15"
crossbeam = "0.8"
osshkeys = "*"
serde = { version = "1", features = ["derive"] }
serde_json = "1"
ssh-rs = "*"
