[package]
name = "sensor_monitor"
version = "0.1.0"
edition = "2021"
publish = false

[dependencies]
anyhow = "=1.0.104"
chrono = { version = "=0.4.45", features = ["serde"] }
serde = { version = "=1.0.229", features = ["derive"] }
ssd1306 = "=0.9.0"
embedded-graphics = "=0.8.2"
display-interface-spi = "=0.5.0"
esp-idf-hal = "=0.45.2"
esp-idf-svc = "=0.51.0"
sqlx = { version = "=0.8.6", features = ["mysql", "runtime-tokio"] }
