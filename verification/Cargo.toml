[package]
name = "market_alerts"
version = "0.1.0"
edition = "2021"
publish = false

[dependencies]
bson = "*"
dotenv = "*"
futures-util = { version = "*", features = ["sink"] }
mysql_async = { version = "*", default-features = false, features = ["minimal"] }
reqwest = { version = "*", default-features = false }
serde = { version = "*", features = ["derive"] }
serde_json = "*"
tokio = { version = "*", features = ["macros", "rt-multi-thread"] }
tokio-tungstenite = "*"
url = "*"
