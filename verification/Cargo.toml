[package]
name = "claudial"
version = "0.1.0"
edition = "2021"
publish = false

[dependencies]
anyhow = "1"
axp2101-dd = "=0.3.1"
bluest = "=0.6.9"
bytemuck = "=1.25.2"
chrono = "=0.4.45"
clap = { version = "4", features = ["derive", "env"] }
cst92xx = "=0.2.4"
dbus = { version = "0.9", features = ["vendored"] }
dirs = "6"
embassy-embedded-hal = "*"
embassy-futures = "=0.1.2"
embassy-sync = "*"
embassy-time = "*"
embedded-hal = "1"
embedded-hal-async = "1"
embedded-storage = "*"
ergot = { version = "=0.12.0", features = ["tokio-std"] }
futures = "0.3"
heapless = "=0.8.0"
pcf85063a = "=0.1.1"
postcard-schema = { version = "*", features = ["derive"] }
reqwest = { version = "=0.13.5", default-features = false, features = ["json"] }
sequential-storage = "*"
serde = { version = "1", features = ["derive"] }
serde_json = "=1.0.154"
time = { version = "=0.3.55", default-features = false }
tokio = { version = "1", features = ["full"] }
tracing = "0.1"
tracing-subscriber = { version = "0.3", features = ["env-filter"] }
zbus = "5"
