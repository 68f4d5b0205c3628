[package]
name = "ef28_badge"
version = "0.1.0"
edition = "2021"
publish = false

[dependencies]
anyhow = "=1.0.104"
ariel-os = "=0.1.0"
embassy-futures = "=0.1.2"
embassy-sync = "=0.8.0"
embedded-graphics = "=0.8.2"
esp-hal = "=1.2.2"
esp-idf-hal = "=0.47.0"
esp-idf-svc = "=0.53.0"
esp-idf-sys = "=0.38.1"
esp-lp-hal = "=0.3.0"
log = "=0.4.35"
once_cell = "=1.21.4"
panic-halt = "=1.0.0"
smart-leds = "=0.4.0"
smart-leds-trait = "=0.3.2"
thiserror = "=2.0.21"
tinybmp = "=0.7.0"
u8g2-fonts = "=0.8.0"
ws2812-esp32-rmt-driver = "=0.15.0"
