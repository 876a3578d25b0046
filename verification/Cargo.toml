[package]
name = "weeb_logger"
version = "0.1.0"
edition = "2021"
publish = false

[dependencies]
rocket = { version = "=0.5.2", features = ["json"] }
serde = "=1.0.229"
serde_derive = "=1.0.229"
serde_json = "=1.0.154"
diesel = { version = "=1.4.8", features = ["postgres"] }
diesel_migrations = "=1.4.0"
dotenv = "=0.15.0"
r2d2 = "=0.8.10"
r2d2-diesel = "=1.0.0"
reqwest = { version = "=0.11.27", features = ["json"] }
tokio = { version = "=1.54.1", features = ["full"] }
twitch-irc = "=6.1.3"
