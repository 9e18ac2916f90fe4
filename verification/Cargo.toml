[package]
name = "epaper_server"
version = "0.1.0"
edition = "2021"
publish = false

[dependencies]
ical = "=0.11.0"
time = "=0.3.55"
time-tz = "=2.0.0"
image = "=0.25.10"
imageproc = "=0.27.0"
ab_glyph = "=0.2.32"
ttf-parser = "=0.25.1"
axum = "=0.8.9"
tokio = { version = "=1.53.2", features = ["rt-multi-thread", "macros", "sync", "net", "time", "signal"] }
reqwest = { version = "=0.13.5", default-features = false, features = ["json"] }
serde = { version = "=1.0.229", features = ["derive"] }
serde_json = "=1.0.151"
tower-http = { version = "=0.7.1", features = ["cors", "normalize-path", "request-id", "timeout"] }
uuid = { version = "=1.27.0", features = ["v7"] }
dotenvy = "=0.15.7"
tokio-cron-scheduler = "=0.15.1"
