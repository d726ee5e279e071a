[package]
name = "lines_of_action"
version = "0.1.0"
edition = "2021"
publish = false

[dependencies]
log = "=0.4.34"
env_logger = "=0.11.11"
sfml = "=0.16.0"

[dev-dependencies]
regex = "=1.13.1"
