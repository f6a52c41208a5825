[package]
name = "osu_leaderboard"
version = "0.1.0"
edition = "2021"
publish = false

[dependencies]
serenity = "0.12"
serenity-commands = "*"
rosu-v2 = "*"
sqlx = { version = "0.7", features = ["postgres", "runtime-tokio-rustls"] }
tokio = { version = "1", features = ["macros", "rt-multi-thread"] }
dotenv = "0.15"
serde = { version = "1", features = ["derive"] }
