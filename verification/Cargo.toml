[package]
name = "soup-tadpole"
version = "0.1.0"
edition = "2021"
publish = false

[dependencies]
cozy-chess = "=0.3.4"
dashmap = "=5.5.3"
vampirc-uci = "=0.11.1"
log = "=0.4.34"
simple-logging = "=2.0.2"
