[package]
name = "example_catalog"
version = "0.1.0"
edition = "2021"
publish = false

[dependencies]
toml_edit = "=0.25.15"
tera = { version = "=2.4.0", features = ["glob_fs"] }
serde = { version = "=1.0.229", features = ["derive"] }
hashbrown = "=0.17.1"
