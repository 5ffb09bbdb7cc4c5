[package]
name = "orbit_traces"
version = "0.1.0"
edition = "2021"
publish = false

[dependencies]
image = "=0.23.14"
imageproc = "=0.22.0"
indicatif = "0.17"
itertools = "=0.10.5"
num = "=0.4.3"
rayon = "=1.12.0"
structopt = "=0.3.26"
