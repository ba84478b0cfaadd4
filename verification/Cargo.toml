[package]
name = "pi_interface"
version = "0.1.0"
edition = "2021"
publish = false

[dependencies]
chrono = { version = "0.4", default-features = false, features = ["clock", "std"] }
dotenv = "0.15"
serde = { version = "1", features = ["derive"] }
ssh2 = "0.9"
tempfile = "3"
zip = { version = "*", default-features = false, features = ["deflate"] }
