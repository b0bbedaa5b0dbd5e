[package]
name = "zwo_asi_rs"
version = "0.1.0"
edition = "2021"
publish = false

[dependencies]
plotters = { version = "0.3", default-features = false, features = ["bitmap_backend", "line_series"] }
tokio = { version = "1", features = ["rt-multi-thread", "macros", "sync", "net"] }
axum = { version = "0.8", features = ["ws"] }
axum-extra = { version = "0.10", features = ["typed-header"] }
futures = "*"
tower = "*"
tower-http = { version = "0.6", features = ["fs", "cors", "trace"] }
tracing = "*"
tracing-subscriber = { version = "0.3", features = ["env-filter"] }
rmp-serde = "*"
serde = { version = "1", features = ["derive"] }
serde_repr = "*"
serde_bytes = "*"
anyhow = "*"
thiserror = "*"
image = { version = "0.25", default-features = false, features = ["tiff"] }
