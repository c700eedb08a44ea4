[package]
name = "sql_audit_gen"
version = "0.1.0"
edition = "2021"
publish = false

[dependencies]
chrono = { version = "0.4", default-features = false, features = ["clock", "std"] }
hex = "0.4"
rand = "0.8"
sha2 = "0.10"

[dev-dependencies]
regex = "1"
