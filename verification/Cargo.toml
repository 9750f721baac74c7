[package]
name = "timely_dataplane"
version = "0.1.0"
edition = "2021"
publish = false

[dependencies]
crossbeam-channel = "0.5"
abomonation = "0.7"
abomonation_derive = "0.5"
