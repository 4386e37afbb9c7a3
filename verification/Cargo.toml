[package]
name = "linal"
version = "0.1.0"
edition = "2021"
publish = false

[dependencies]
arrow = { version = "*", default-features = false }
axum = "*"
bumpalo = "=3.20.3"
chrono = { version = "=0.4.45", default-features = false, features = ["now"] }
clap = { version = "*", features = ["derive"] }
colored = "*"
parquet = { version = "*", default-features = false, features = ["arrow"] }
rustc_apfloat = "=0.2.3"
rustyline = "*"
serde = { version = "*", features = ["derive"] }
serde_json = "*"
softfloat = "=1.0.0"
thiserror = "*"
tokio = { version = "*", features = ["macros", "net", "rt-multi-thread", "time"] }
toon-format = "*"
utoipa = "*"
utoipa-swagger-ui = { version = "*", features = ["axum"] }
