[package]
name = "mangaverse_sql"
version = "0.1.0"
edition = "2021"
publish = false

[dependencies]
async-std = { version = "*", features = ["attributes"] }
dotenvy = "*"
futures = "*"
isahc = "=1.7.2"
lazy_static = "*"
scraper = "*"
sqlx = { version = "=0.7.4", default-features = false, features = ["mysql", "chrono", "runtime-async-std"] }
thiserror = "*"
tuple-conv = "*"
