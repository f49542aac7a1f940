[package]
name = "neweden"
version = "0.1.0"
edition = "2021"
publish = false

[dependencies]
pathfinding = "*"
anyhow = "*"
rusqlite = "*"
diesel = { version = "*", features = ["postgres"] }
