[package]
name = "sveltekit_axum"
version = "0.1.0"
edition = "2021"
publish = false

[dependencies]
axum = "0.7"
tokio = { version = "1", features = ["full"] }
tower = "0.4"
tower-http = { version = "0.5", features = ["fs", "trace"] }
hyper = "1"
include_dir = "0.7"
mime = "0.3"
mime_guess = "2"
serde = { version = "1", features = ["derive"] }
anyhow = "1"
tracing = "0.1"
tracing-subscriber = "0.3"
reverse-proxy-service = "*"
deno_core = "*"
serde_v8 = "*"
deno_console = "*"
deno_webidl = "*"
deno_url = "*"
deno_web = "*"
