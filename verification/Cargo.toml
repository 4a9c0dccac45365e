[package]
name = "nix_stat"
version = "0.1.0"
edition = "2021"
publish = false

[dependencies]
anyhow = "*"
async-stream = "*"
axum = "*"
jiff = "*"
rustix = { version = "*", features = ["fs"] }
serde = { version = "*", features = ["derive"] }
serde_json = "*"
tokio = { version = "*", features = ["macros", "net", "rt-multi-thread", "time"] }
xshell = "*"
