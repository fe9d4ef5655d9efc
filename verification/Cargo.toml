[package]
name = "survey_cad_truck_gui"
version = "0.1.0"
edition = "2021"
publish = false

[dependencies]
shell-words = "1"
serde = { version = "1", features = ["derive"] }
serde_json = "1"
dirs = "*"
thiserror = "*"
