[package]
name = "osm_client"
version = "0.1.0"
edition = "2021"
publish = false

[dependencies]
chrono = "=0.4.45"
reqwest = { version = "=0.13.5", features = ["blocking"] }
url = "=2.5.8"
xmltree = { version = "=0.12.0", features = ["attribute-sorted"] }
