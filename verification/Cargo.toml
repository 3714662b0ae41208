[package]
name = "weather_station"
version = "0.1.0"
edition = "2021"
publish = false

[dependencies]
colored = "2"
dotenv = "0.15"
reqwest = { version = "0.11", features = ["blocking", "json"] }
serde = { version = "1", features = ["derive"] }
