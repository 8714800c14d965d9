[package]
name = "weather_bot"
version = "0.1.0"
edition = "2021"
publish = false

[dependencies]
chrono = "0.4"
regex = "1"
diesel = { version = "2", features = ["postgres", "chrono", "numeric"] }
bigdecimal = "0.4"
serde = { version = "1", features = ["derive"] }
serde_json = "1"
jsonpath-rust = "0.3"
reqwest = { version = "0.11", default-features = false, features = ["blocking", "json", "rustls-tls"] }
log = "0.4"
log4rs = { version = "1", default-features = false, features = ["config_parsing", "yaml_format", "console_appender", "file_appender"] }
dotenvy = "0.15"
