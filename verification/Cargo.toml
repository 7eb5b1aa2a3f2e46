[package]
name = "ghist"
version = "0.1.0"
edition = "2021"
publish = false

[dependencies]
rand = "0.5"
actix = "0.7"
actix-web = { version = "0.7", default-features = false }
nalgebra = { version = "0.16", features = ["serde-serialize"] }
serde = "1"
serde_derive = "1"
serde_json = "1"
