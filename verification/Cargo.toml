[package]
name = "tomato"
version = "0.1.0"
edition = "2021"
publish = false

[dependencies]
chrono = "0.4"
diesel = { version = "1.4", features = ["sqlite", "r2d2"] }
libsqlite3-sys = { version = "0.22", features = ["bundled"] }
dotenv = "0.15"
futures = "0.3"
termion = "1.5"
tokio = { version = "1", features = ["full"] }
tui = { version = "0.19", default-features = false, features = ["termion"] }
unicode-width = "0.1"
