[package]
name = "dbgen"
version = "0.1.0"
edition = "2021"
publish = false

[dependencies]
archlinux-repo-parser = "*"
libsql = { version = "*", default-features = false, features = ["core"] }
serde = { version = "*", features = ["derive"] }
serde_json = "*"
tokio = { version = "*", features = ["macros", "rt-multi-thread"] }
