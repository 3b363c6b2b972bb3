[package]
name = "latest_log"
version = "0.1.0"
edition = "2021"
publish = false

[dependencies]
actix-web = "=4.18.1"
leptos = "=0.4.10"
leptos_actix = "=0.4.10"
leptos_meta = "=0.4.10"
leptos_router = "=0.4.10"
serde = { version = "=1.0.229", features = ["derive"] }
tracing = "0.1"
