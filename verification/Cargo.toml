[package]
name = "ctfdeploy"
version = "0.1.0"
edition = "2021"
publish = false

[dependencies]
uuid = { version = "1", features = ["v4"] }
chrono = "0.4"
actix-web = "4"
actix-cors = "*"
tokio = { version = "1", features = ["macros", "rt-multi-thread"] }
serde = { version = "1", features = ["derive"] }
toml = "*"
bollard = "*"
futures-util = "0.3"
tar = "*"
bytes = "1"
hyper = "1"
http-body-util = "*"
