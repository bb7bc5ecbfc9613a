[package]
name = "unreal_asset"
version = "0.1.0"
edition = "2021"
publish = false

[dependencies]
byteorder = "1.4"
directories = "4.0"
eframe = "0.19"
log = "0.4"
num_enum = "0.5"
ordered-float = "3.0"
reqwest = { version = "0.11", default-features = false, features = ["blocking"] }
serde = { version = "1.0", features = ["derive"] }
serde_json = "1.0"
