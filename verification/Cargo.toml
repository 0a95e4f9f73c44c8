[package]
name = "coop_scheduler"
version = "0.1.0"
edition = "2021"
publish = false

[dependencies]
crossbeam = "=0.8.5"
crossbeam-channel = "=0.5.17"
crossterm = "=0.29.0"
num_cpus = "=1.17.0"
work-queue = "=0.1.4"
