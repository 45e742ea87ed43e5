[package]
name = "stock"
version = "0.1.0"
edition = "2021"
publish = false

[dependencies]
ctrlc = "3"
futures = "0.1"
grpcio = "0.4"
prettytable-rs = "0.8"
protobuf = "2"
slog = "2"
slog-async = "2"
slog-term = "2"
structopt = "0.3"
