[package]
name = "butido"
version = "0.1.0"
edition = "2021"
publish = false

[dependencies]
anyhow = "1"
bytesize = "*"
chrono = "0.4"
clap = "4"
colored = "*"
dialoguer = "*"
diesel = { version = "2", features = ["postgres", "chrono", "uuid"] }
diesel_migrations = "2"
filters = "*"
futures = "0.3"
humantime = "2"
indicatif = "*"
indoc = "2"
itertools = "*"
log = "0.4"
resiter = "*"
result-inspect = "*"
tar = "0.4"
tokio = { version = "1", features = ["full"] }
tokio-stream = "0.1"
tracing = "0.1"
uuid = { version = "1", features = ["v4"] }
which = "*"
