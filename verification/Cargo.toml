[package]
name = "finite_field"
version = "0.1.0"
edition = "2021"
publish = false

[dependencies]
mod_exp = "*"
crypto-bigint = "0.5"

[dev-dependencies]
primes = "*"
