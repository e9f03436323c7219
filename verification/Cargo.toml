[package]
name = "lyricslens"
version = "0.1.0"
edition = "2021"
publish = false

[dependencies]
regex = "=1.13.1"
serde = { version = "=1.0.229", features = ["derive"] }
serde_json = "=1.0.154"
toml = "=1.1.8"
thiserror = "=2.0.21"
tokio = { version = "=1.54.1", features = ["rt", "macros", "time", "sync", "net", "io-util"] }
async-channel = "=2.5.0"
futures-util = "=0.3.34"
zbus = { version = "=5.19.0", default-features = false, features = ["tokio"] }
reqwest = { version = "=0.12.28", default-features = false, features = ["json", "rustls-tls"] }
rusqlite = { version = "=0.41.1", features = ["bundled"] }
tracing = "=0.1.44"
tracing-subscriber = { version = "=0.3.23", features = ["env-filter"] }
png = "*"
ksni = { version = "*", features = ["blocking"] }
x11rb = "*"
gtk4 = "*"
libadwaita = "*"
gdk4-x11 = "*"
gtk4-layer-shell = "*"
