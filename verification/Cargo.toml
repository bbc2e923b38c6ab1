[package]
name = "sampling_counter"
version = "0.1.0"
edition = "2021"
publish = false

[dependencies]
influx_db_client = "*"
buffett-timing = "*"
