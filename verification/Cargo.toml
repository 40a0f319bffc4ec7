[package]
name = "banko"
version = "0.1.0"
edition = "2021"
publish = false

[dependencies]
rand = "=0.8.8"
rocket = "0.5"
rocket_session = "*"
diesel = { version = "=1.4.8", features = ["sqlite"] }
tera = "=0.11.20"
lettre = "=0.10.4"
serde = { version = "1", features = ["derive"] }
dotenv = "=0.15.0"
