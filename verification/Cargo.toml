[package]
name = "floor_planner"
version = "0.1.0"
edition = "2021"
publish = false

[dependencies]
ark-std = "0.3"
crossbeam = "0.8"
ff = "0.13"
log = "0.4"
