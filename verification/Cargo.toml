[package]
name = "tern"
version = "0.1.0"
edition = "2021"
publish = false

[dependencies]
clap = { version = "4", features = ["derive"] }
ctrlc = "3"
directories = "5"
filetime = "0.2"
futures = "0.3"
ignore = "0.4"
indicatif = "0.17"
mlua = { version = "0.10", features = ["lua54", "vendored"] }
rayon = "1"
sqlx = { version = "0.8", default-features = false, features = ["sqlite", "runtime-tokio", "migrate"] }
tokio = { version = "1", features = ["rt-multi-thread", "macros", "sync"] }
