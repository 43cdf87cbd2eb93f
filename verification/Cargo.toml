[package]
name = "pandora_backend"
version = "0.1.0"
edition = "2021"
publish = false

[dependencies]
slab = "=0.4.12"
sanitize-filename = "=0.6.0"
quick-xml = "=0.38.4"
chrono = "=0.4.45"
tokio = { version = "=1.54.1", features = ["rt-multi-thread", "macros", "sync", "time", "fs", "process"] }
notify = "=8.2.0"
notify-debouncer-full = "=0.7.0"
reqwest = { version = "=0.12.28", default-features = false, features = ["rustls-tls"] }
directories = "=6.0.0"
serde = { version = "=1.0.229", features = ["derive"] }
serde_json = "=1.0.154"
ustr = "=1.1.0"
atomic_enum = "=0.3.0"
sha1 = "0.10"
