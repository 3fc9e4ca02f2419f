[package]
name = "back_ruban_led_connected"
version = "0.1.0"
edition = "2021"
publish = false

[dependencies]
rand = "0.8"
chrono = "0.4"
actix = "0.13"
actix-web = "4"
actix-web-actors = "4"
actix-cors = "0.6"
bluer = { version = "0.16", features = ["bluetoothd", "rfcomm"] }
tokio = { version = "1", features = ["full"] }
futures = "0.3"
serde = { version = "1", features = ["derive"] }
serde_json = "1"
anyhow = "1"
