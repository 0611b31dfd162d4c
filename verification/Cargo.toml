[package]
name = "austrian_market"
version = "0.1.0"
edition = "2021"
publish = false

[dependencies]
rand = "0.8"
rand_distr = "0.4"
parking_lot = { version = "0.12", features = ["deadlock_detection"] }
toml = "0.8"
mysql = { version = "*", default-features = false, features = ["minimal-rust"] }
lazy_static = "1.4"
