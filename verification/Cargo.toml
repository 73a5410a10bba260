[package]
name = "pie_chart"
version = "0.1.0"
edition = "2021"
publish = false

[dependencies]
humantime = "2"
chrono = "0.4"
tokio = { version = "1", features = ["rt-multi-thread"] }
gtk4 = "0.7"
libadwaita = "0.5"
pangocairo = "0.18"
