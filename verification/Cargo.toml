[package]
name = "media_gateway"
version = "0.1.0"
edition = "2021"
publish = false

[dependencies]
secp256k1 = { version = "0.24", features = ["bitcoin-hashes-std", "global-context"] }
image = "0.24"
mime_guess = "2"
form_urlencoded = "1"
redis = "0.24"
reqwest = { version = "0.11", default-features = false, features = ["json"] }
actix-web = { version = "4", default-features = false, features = ["macros"] }
tokio = { version = "1", features = ["macros", "rt-multi-thread", "time"] }
chrono = "0.4"
serde = { version = "1", features = ["derive"] }
serde_json = "1"
async-lock = "2"
futures-util = "0.3"
select = "0.6"
