[package]
name = "guess_ai"
version = "0.1.0"
edition = "2021"
publish = false

[dependencies]
actix-cors = "0.7"
actix-multipart = "0.6"
actix-web = "4"
dotenv = "0.15"
futures = "0.3"
rand = "0.8"
reqwest = { version = "0.11", features = ["json", "multipart"] }
rusqlite = "0.31"
serde = { version = "1", features = ["derive"] }
serde_json = "1"
uuid = { version = "1", features = ["v4"] }
