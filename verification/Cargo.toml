[package]
name = "things_todo"
version = "0.1.0"
edition = "2021"
publish = false

[dependencies]
bson = { version = "=3.1.0", features = ["serde"] }
dialoguer = { version = "=0.12.0", features = ["fuzzy-select"] }
directories = "=6.0.0"
flexbuffers = "=25.12.19"
owo-colors = "=4.4.0"
rand = "=0.10.3"
rmp-serde = "=1.3.1"
serde_cbor = "=0.11.2"
serde_json = "=1.0.151"
