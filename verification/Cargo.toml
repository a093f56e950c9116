[package]
name = "slam_parser"
version = "0.1.0"
edition = "2021"
publish = false

[dependencies]
nom = "=4.2.3"
nalgebra = "=0.29.0"
alga = "=0.9.3"
kiss3d = "=0.33.0"
log = "=0.4.34"
env_logger = "=0.5.13"
