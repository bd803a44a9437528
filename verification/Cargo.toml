[package]
name = "stock_charts"
version = "0.1.0"
edition = "2021"
publish = false

[dependencies]
chrono = "*"
plotters = "*"
time = "*"
tokio = { version = "*", features = ["macros", "rt-multi-thread"] }
yahoo_finance_api = "*"
