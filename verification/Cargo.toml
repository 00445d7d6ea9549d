[package]
name = "ngaw_domain"
version = "0.1.0"
edition = "2021"
publish = false

[dependencies]
anyhow = "1"
inquire = "0.7"
owo-colors = "4"
rand = "0.9"
