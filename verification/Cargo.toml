[package]
name = "esp_iot"
version = "0.1.0"
edition = "2021"
publish = false

[dependencies]
heapless = { version = "=0.8.0", features = ["serde"] }
postcard = "=1.1.3"
form_urlencoded = "=1.2.2"
serde = { version = "=1.0.229", features = ["derive"] }
serde_json = "=1.0.154"
serde-json-core = "=0.6.0"
anyhow = "=1.0.104"
log = "=0.4.35"
spin = "=0.9.9"
embedded-svc = "=0.29.0"
esp-idf-svc = "=0.53.0"
esp-idf-hal = "=0.47.0"
esp-idf-sys = "=0.38.1"
bh1750 = "*"
bmp280 = "*"
nanoserde = "*"
embassy-executor = "*"
esp-println = "*"
