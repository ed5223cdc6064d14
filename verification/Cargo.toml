[package]
name = "tally"
version = "0.1.0"
edition = "2021"
publish = false

[dependencies]
abomonation = "0.7"
anyhow = "1"
cargo-tally = "=1.0.79"
clap = "=2.34.0"
differential-dataflow-master = "=0.13.0-dev.1"
num_cpus = "1"
regex = "1"
semver = "1"
timely-master = "=0.13.0-dev.1"
