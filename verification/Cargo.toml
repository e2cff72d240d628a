[package]
name = "pcap_parser"
version = "0.1.0"
edition = "2021"
publish = false

[dependencies]
circular = "0.3"
cookie-factory = "0.3"
nom = "7"
tokio = { version = "1", default-features = false, features = ["io-util"] }
