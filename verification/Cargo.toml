[package]
name = "remoteapi-test"
version = "0.1.0"
edition = "2021"
publish = false

[dependencies]
actix-web = { version = "4", default-features = false, features = ["macros"] }
serde = { version = "1", features = ["derive"] }
serde_json = "1"
thiserror = "2"
form_urlencoded = "1"
md5 = "0.7"
rand = "0.9"
