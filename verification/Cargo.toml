[package]
name = "si_layer_cache"
version = "0.1.0"
edition = "2021"
publish = false

[dependencies]
futures = "0.3"
serde = { version = "1", features = ["derive"] }
tokio = { version = "1", features = ["macros", "rt", "sync"] }
tokio-util = { version = "0.7", features = ["rt"] }
tracing = "0.1"
ulid = { version = "1", features = ["serde"] }

[dev-dependencies]
postcard = { version = "1", features = ["use-std"] }
