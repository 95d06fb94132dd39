[package]
name = "video_storage"
version = "0.1.0"
edition = "2021"
publish = false

[dependencies]
bson = "2"
actix-web = "4"
actix-files = "0.6"
actix-multipart = "0.6"
futures = "0.3"
futures-util = "0.3"
mime = "0.3"
mongodb = "2"
serde = { version = "1", features = ["derive"] }
derive_more = "0.99"
