[package]
name = "xenon_rt"
version = "0.1.0"
edition = "2021"
publish = false

[dependencies]
critical-section = "1"
embedded-graphics = "0.8"
futures = "0.3"
log = "0.4"
rand = "0.8"
static_cell = "2"
thiserror = "1"
