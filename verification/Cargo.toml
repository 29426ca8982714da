[package]
name = "clif_lower"
version = "0.1.0"
edition = "2021"
publish = false

[dependencies]
ar = "*"
flate2 = "*"
object = { version = "*", default-features = false, features = ["read", "write"] }
gimli = "*"
