[package]
name = "feed_data"
version = "0.1.0"
edition = "2021"
publish = false

[dependencies]
tokio = { version = "*", features = ["full"] }
tokio-websockets = { version = "*", features = ["server", "sha1_smol", "rand"] }
futures = "*"
futures-channel = "*"
futures-util = "*"
tokio-postgres = { version = "*", features = ["with-chrono-0_4"] }
serde = { version = "*", features = ["derive"] }
serde_json = "*"
actix-web = { version = "*", default-features = false, features = ["macros"] }
actix-cors = "*"
chrono = { version = "*", features = ["serde"] }
bigdecimal = "*"
pg_bigdecimal = "*"
dotenv = "*"
local-ip-address = "*"
