[package]
name = "chat_history_manager"
version = "0.1.0"
edition = "2021"
publish = false

[dependencies]
unicode-segmentation = "=1.13.3"
hashers = "=1.0.1"
regex = "=1.13.1"
uuid = { version = "=1.29.0", features = ["v4"] }
utf16string = "=0.2.0"
phonenumber = "=0.3.10"
serde = "=1.0.229"
serde_json = { version = "=1.0.154", features = ["preserve_order"] }
