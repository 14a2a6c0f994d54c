[package]
name = "event_horizon"
version = "0.1.0"
edition = "2021"
publish = false

[dependencies]
counted_map = "=0.3.0"
