[package]
name = "poll_store"
version = "0.1.0"
edition = "2021"
publish = false

[dependencies]
comrak = "*"
serde = { version = "*", features = ["derive"] }
serde_json = "*"
dotenv = "*"
rocket = { version = "*", features = ["json"] }
rocket_dyn_templates = { version = "*", features = ["handlebars"] }
