[package]
name = "jira_ai"
version = "0.1.0"
edition = "2021"
publish = false

[dependencies]
anyhow = "1"
base64 = "0.22"
chrono = { version = "0.4", default-features = false, features = ["clock", "std"] }
directories = "6"
eframe = { version = "0.29", default-features = false, features = ["default_fonts", "glow", "x11"] }
flate2 = "1"
keyring = { version = "3", default-features = false, features = ["linux-native"] }
quick-xml = "0.37"
reqwest = { version = "0.12", default-features = false, features = ["json", "native-tls"] }
serde = { version = "1", features = ["derive"] }
serde_json = "1"
text-splitter = { version = "0.18", default-features = false }
tokio = { version = "1", features = ["rt-multi-thread", "sync", "time"] }
tracing = "0.1"
tracing-subscriber = { version = "0.3", default-features = false, features = ["env-filter", "fmt"] }
url = "2"
