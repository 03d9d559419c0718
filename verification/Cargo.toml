[package]
name = "ulid_udf"
version = "0.1.0"
edition = "2021"
publish = false

[dependencies]
ulid = "*"
chrono = "*"
diligent-date-parser = "*"
udf = "*"
