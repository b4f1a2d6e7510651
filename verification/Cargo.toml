[package]
name = "lalafell_bot"
version = "0.1.0"
edition = "2021"
publish = false

[dependencies]
chrono = "0.4"
itertools = "0.14"
serde_json = "1"
structopt = "0.3"
syn = { version = "1", features = ["full"] }
quote = "1"
serenity = "0.8"
diesel = { version = "2.2", features = ["sqlite"] }
libsqlite3-sys = { version = "0.30", features = ["bundled"] }
discord = "0.8"
