[package]
name = "outerclaw"
version = "0.1.0"
edition = "2021"
publish = false

[dependencies]
clap = { version = "4", features = ["derive"] }
clap_complete = "4"
dialoguer = "0.11"
env_logger = "0.11"
libc = "0.2"
log = "0.4"
nix = { version = "0.29", features = ["fs", "process", "signal", "time", "user"] }
notify = "6"
rusqlite = { version = "0.31", features = ["backup", "bundled"] }
serde = { version = "1", features = ["derive"] }
serde_json = "1"
sha2 = "0.10"
ureq = "2"
