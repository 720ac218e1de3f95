[package]
name = "apiserver"
version = "0.1.0"
edition = "2021"
publish = false

[dependencies]
actix-multipart = "=0.8.5"
actix-web = "=4.15.0"
bcrypt = "=0.19.3"
cloudinary = "=0.8.3"
dotenvy = "=0.15.7"
env_logger = "=0.11.11"
hex = "=0.4.3"
log = "=0.4.34"
md5 = "=0.8.1"
mime = "=0.3.17"
r2d2 = "=0.8.10"
redis = { version = "=1.7.1", features = ["r2d2"] }
serde = { version = "=1.0.229", features = ["derive"] }
sqlx = { version = "=0.9.0", default-features = false, features = ["postgres", "runtime-tokio", "derive"] }
validator = { version = "=0.21.0", features = ["derive"] }
