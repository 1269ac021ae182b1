[package]
name = "horned_owl"
version = "0.1.0"
edition = "2021"
publish = false

[dependencies]
curie = "=0.1.4"
failure = "=0.1.8"
log = "=0.4.34"
oxiri = "=0.2.11"
rio_api = "=0.5.3"
rio_xml = "=0.5.3"
sophia = { version = "=0.4.0", features = ["xml"] }
