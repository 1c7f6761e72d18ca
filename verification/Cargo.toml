[package]
name = "ascii_render"
version = "0.1.0"
edition = "2021"
publish = false

[dependencies]
image = { version = "=0.25.6", default-features = false, features = ["gif", "png", "jpeg", "bmp"] }
gif = "=0.13.3"
actix-web = { version = "=4.18.1", default-features = false, features = ["macros"] }
actix-cors = "=0.7.2"
actix-multipart = { version = "=0.7.2", default-features = false }
futures-util = "=0.3.34"
tokio = { version = "=1.54.1", features = ["sync", "time", "rt"] }
