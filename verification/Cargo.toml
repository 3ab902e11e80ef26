[package]
name = "json_ld"
version = "0.1.0"
edition = "2021"
publish = false

[dependencies]
iref = "=2.2.3"
rdf-types = "=0.12.19"
langtag = "=0.3.4"
uuid = { version = "=0.8.2", features = ["v3", "v4", "v5"] }
serde_json = { version = "=1.0.154", features = ["preserve_order"] }
clap = { version = "=4.6.7", features = ["derive"] }
