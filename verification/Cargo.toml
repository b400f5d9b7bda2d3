[package]
name = "auspex"
version = "0.1.0"
edition = "2021"
publish = false

[dependencies]
async-trait = "0.1"
axum = { version = "0.8", default-features = false, features = ["matched-path"] }
getrandom = "0.3"
http = "1"
pin-project-lite = "0.2"
prost = "0.14"
reqwest = { version = "0.12", default-features = false, features = ["rustls-tls-no-provider"] }
rustls = { version = "0.23", default-features = false, features = ["ring", "std", "tls12"] }
serde = { version = "1", features = ["derive"] }
serde_json = "1"
smallvec = "1"
tokio = { version = "1", features = ["macros", "rt", "sync", "time"] }
tower = "0.5"
tracing = "0.1"
tracing-subscriber = { version = "0.3", default-features = false, features = ["registry", "std"] }
url = "2"
