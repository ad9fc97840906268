[package]
name = "healthwatch"
version = "0.1.0"
edition = "2021"
publish = false

[dependencies]
chrono = "=0.4.45"
url = "=2.5.8"
reqwest = { version = "0.12", default-features = false, features = ["json", "rustls-tls"] }
serde = { version = "1", features = ["derive"] }
serde_json = "1"
tokio = { version = "1", features = ["macros", "rt-multi-thread"] }
envy = "0.4"
lambda_runtime = "0.13"
aws-config = "1"
aws-types = "~1.6"
aws-sdk-dynamodb = "1"
aws-sdk-ecs = "1"
aws-sdk-sesv2 = "1"
aws-smithy-types-convert = { version = "0.60", features = ["convert-chrono"] }
