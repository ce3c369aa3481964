[package]
name = "myrello"
version = "0.1.0"
edition = "2021"
publish = false

[dependencies]
chrono = "0.4"
dirs = "*"
exitfailure = "*"
failure = "0.1"
log = "0.4"
mkdirp = "*"
prettytable-rs = "*"
rusqlite = { version = "*", features = ["bundled"] }
serde = { version = "1", features = ["derive"] }
serde_json = "1"
structopt = "0.3"
structopt-flags = "*"
