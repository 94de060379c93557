[package]
name = "shortener"
version = "0.1.0"
edition = "2021"
publish = false

[dependencies]
rand = "0.8"
validator = "0.16"
openidconnect = { version = "3", default-features = false, features = ["reqwest"] }
rocket = { version = "0.5", features = ["json", "secrets"] }
rocket_db_pools = { version = "0.1", features = ["diesel_postgres"] }
rocket_dyn_templates = { version = "0.1", features = ["handlebars"] }
diesel = "2.1"
diesel-async = { version = "0.4", features = ["postgres"] }
figment = { version = "0.10", features = ["toml", "env"] }
serde = { version = "1", features = ["derive"] }
serde_json = "1"
