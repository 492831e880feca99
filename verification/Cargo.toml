[package]
name = "data_profiler"
version = "0.1.0"
edition = "2021"
publish = false

[dependencies]
anyhow = "=1.0.104"
apache-avro = "=0.17.0"
calamine = "0.37"
clap = { version = "=4.6.7", features = ["derive"] }
flexi_logger = { version = "=0.29.8", default-features = false }
log = "=0.4.34"
polars = { version = "=0.46.0", features = ["lazy", "csv", "json", "parquet"] }
rayon = "=1.12.0"
serde = { version = "=1.0.229", features = ["derive"] }
serde_json = "=1.0.154"
sqlx = { version = "=0.8.6", default-features = false, features = ["sqlite", "runtime-tokio"] }
