[package]
name = "rbuster"
version = "0.2.1"
edition = "2021"
publish = false

[dependencies]
futures = "0.3"
nanoid = "0.2"
quicli = "0.4"
reqwest = "0.10"
structopt = "0.2"
tokio = { version = "0.2", features = ["full"] }
