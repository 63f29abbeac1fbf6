[package]
name = "bettervote"
version = "0.1.0"
edition = "2021"
publish = false

[dependencies]
tallystick = "=0.3.1"
rand = "=0.10.3"
rocket = { version = "=0.5.2", features = ["json"] }
rocket_sync_db_pools = { version = "=0.1.0", features = ["postgres_pool"] }
rocket_cors = "=0.6.0"
postgres = "=0.19.14"
dotenv = "=0.15.0"
backtrace = "=0.3.76"
