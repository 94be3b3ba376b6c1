[package]
name = "key_derive"
version = "0.1.0"
edition = "2021"
publish = false

[dependencies]
secp256k1 = "0.27"
hmac = "0.12"
sha2 = "0.10"
poem = { version = "1", features = ["rustls", "test"] }
tokio = { version = "1", features = ["macros", "rt-multi-thread", "time"] }
async-stream = "0.3"
serde = { version = "1", features = ["derive"] }
envy = "0.4"
dotenv = "0.15"
once_cell = "1"
actix-web = { version = "4", default-features = false }
hex = "0.4"
