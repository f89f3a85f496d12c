[package]
name = "ferrum"
version = "0.1.0"
edition = "2021"
publish = false

[dependencies]
hyper = "0.11"
futures = "0.1"
futures-cpupool = "0.1"
unsafe-any = "0.4"
ferrum-plugin = "*"
num_cpus = "1"
mime = "0.3"
url = "1"
log = "0.4"
