[package]
name = "epd_bitmap"
version = "0.1.0"
edition = "2021"
publish = false

[dependencies]
axum = "*"
base64 = "*"
chrono = "0.4"
clap = { version = "4", features = ["derive"] }
csv = "1"
image = { version = "*", default-features = false, features = ["png", "pnm"] }
num-complex = "*"
plotters = { version = "0.3", default-features = false, features = ["chrono", "candlestick"] }
plotters-bitmap = { version = "0.3", default-features = false }
reqwest = { version = "*", features = ["json"] }
resvg = "*"
reverse_geocoder = "*"
serde = { version = "1", features = ["derive"] }
serde_json = "1"
tiny-skia = "*"
tokio = { version = "1", features = ["full"] }
usvg = "*"
