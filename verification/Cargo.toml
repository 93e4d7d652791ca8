[package]
name = "plex_poster_launcher"
version = "0.1.0"
edition = "2021"
publish = false

[dependencies]
url = "2"
serde = { version = "1", features = ["derive"] }
quick-xml = { version = "0.31", features = ["serialize"] }
thiserror = "1"
toml = "0.8"
directories = "5"
reqwest = { version = "0.12", default-features = false, features = ["blocking"] }
image = { version = "0.24", default-features = false, features = ["jpeg", "png"] }
