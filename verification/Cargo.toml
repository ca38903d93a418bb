[package]
name = "pkgdeps"
version = "0.1.0"
edition = "2021"
publish = false

[dependencies]
clap = "2"
conch-parser = "0.1"
futures = "0.1"
futures-cpupool = "0.1"
void = "1"
yaml-rust = "0.4"
