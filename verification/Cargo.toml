[package]
name = "bm_stack"
version = "0.1.0"
edition = "2021"
publish = false

[dependencies]
arbitrary = "1.4"
embassy-futures = "0.1"
embassy-net-adin1110 = "0.4"
embassy-time = "0.5"
embedded-hal = "1.0"
embedded-hal-async = "1.0"
xarxa-driver = "0.1"
