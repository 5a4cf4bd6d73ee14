[package]
name = "credential_aws_sts"
version = "0.1.0"
edition = "2021"
publish = false

[dependencies]
async-trait = "0.1"
aws-config = { version = "1", default-features = false, features = ["default-https-client", "rt-tokio", "behavior-version-latest"] }
aws-credential-types = "1"
aws-sdk-sts = { version = "1", default-features = false, features = ["default-https-client", "rt-tokio", "behavior-version-latest"] }
chrono = "0.4"
metrics = "*"
serde = { version = "1", features = ["derive"] }
serde_json = "1"
thiserror = "2"
tokio = { version = "1", features = ["rt-multi-thread", "net", "time"] }
tracing = "0.1"
