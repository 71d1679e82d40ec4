[package]
name = "airnc"
version = "0.1.0"
edition = "2021"
publish = false

[dependencies]
rand = "0.8"
qrcode = "0.14"
image = { version = "0.25", default-features = false }
termimage = "1"
clap = { version = "4", default-features = false, features = ["std", "derive", "help", "usage", "error-context"] }
colored = "2"
indicatif = "0.17"
actix-web = "4"
actix = "0.13"
actix-web-actors = "4"
actix-cors = "0.6"
async-stream = "0.3"
tokio = { version = "1", features = ["rt-multi-thread", "macros", "sync"] }
serde = { version = "1", features = ["derive"] }
serde_json = "1"
derive_more = "0.99"
dotenvy = "0.15"
mysql = { version = "24", default-features = false, features = ["minimal"] }
websockets = "0.3"
